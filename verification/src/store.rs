//! The registries of the server: endpoints and players, lobbies by region,
//! and the matchmaking queues of each region.

use crate::error::GameSyncError;
use crate::ident::{is_random_uuid, mint_id};
use crate::lobby::{Lobby, LobbyID, LobbyView, Player, PlayerID, Region, Visibility, REGION_COUNT};
use crate::queue::{
    casual_pair, competitive_pair, first_where, has_id, lobby_views, rated_above, rated_has_id,
    remove_at, remove_pair, sorted_by_rating, unrated, CasualQueue, CompetitiveQueue, RatedView,
};
use crate::tables::{
    id_entries, id_map_get, id_map_insert, id_map_list, id_map_new, id_map_remove, lists_ids,
    lists_lobbies, lobby_entries, lobby_map_get, lobby_map_insert, lobby_map_list, lobby_map_new,
    lobby_map_remove, player_entries, player_map_get, player_map_insert, player_map_new,
    player_map_remove, region_entries, region_map_get, region_map_insert, region_map_new,
    region_map_remove, IdMap, LobbyMap, PlayerMap, RegionMap,
};
use std::collections::VecDeque;
use vstd::prelude::*;

verus! {

/// Handle of a connected transport peer, chosen by the transport.
pub type EndpointID = u128;

/// What a player registry holds for a player: the profile and the lobby the
/// player is in, if any.
pub type PlayerInfo = (Player, Option<LobbyID>);

/// The settings of a server.
#[derive(Debug, Copy, Clone)]
pub struct ServerParams {
    /// The number of players that fill a lobby.
    pub player_count: usize,
}

/// The mathematical value of a [`DataStore`].
#[verifier::ext_equal]
pub struct StoreView {
    /// The endpoint of each connected player.
    pub user_endpoints: Map<PlayerID, EndpointID>,
    /// The player behind each connected endpoint.
    pub endpoint_users: Map<EndpointID, PlayerID>,
    /// The lobbies, each under the region of its bucket.
    pub lobbies: Map<(Region, LobbyID), LobbyView>,
    /// The region under which each lobby is to be found.
    pub lobby_regions: Map<LobbyID, Region>,
    /// The profile and current lobby of each player.
    pub players: Map<PlayerID, PlayerInfo>,
    /// The casual queue of each region, head first.
    pub casual: Map<Region, Seq<LobbyView>>,
    /// The competitive queue of each region, lowest rating first.
    pub competitive: Map<Region, Seq<RatedView>>,
    /// The number of players that fill a lobby.
    pub lobby_size: usize,
}

/// A store without players, lobbies or queued lobbies.
pub open spec fn empty_store(lobby_size: usize) -> StoreView {
    StoreView {
        user_endpoints: Map::empty(),
        endpoint_users: Map::empty(),
        lobbies: Map::empty(),
        lobby_regions: Map::empty(),
        players: Map::empty(),
        casual: Map::new(|r: Region| true, |r: Region| Seq::empty()),
        competitive: Map::new(|r: Region| true, |r: Region| Seq::empty()),
        lobby_size: lobby_size,
    }
}

/// The rating that counts for a member: the registered one, or zero for a
/// member that is not registered.
pub open spec fn rating_of(players: Map<PlayerID, PlayerInfo>, p: PlayerID) -> nat {
    if players.contains_key(p) {
        players[p].0.rating as nat
    } else {
        0
    }
}

/// The sum of the ratings of the members.
pub open spec fn rating_sum(players: Map<PlayerID, PlayerInfo>, members: Seq<PlayerID>) -> nat
    decreases members.len(),
{
    if members.len() == 0 {
        0
    } else {
        rating_sum(players, members.drop_last()) + rating_of(players, members.last())
    }
}

/// The mean of the ratings of the members, rounded down; zero for no members.
pub open spec fn mean_rating(players: Map<PlayerID, PlayerInfo>, members: Seq<PlayerID>) -> nat {
    if members.len() == 0 {
        0
    } else {
        rating_sum(players, members) / members.len()
    }
}

/// The average rating of the lobby `id` of `region`; zero where there is no
/// such lobby.
pub open spec fn average_rating(s: StoreView, region: Region, id: LobbyID) -> nat {
    if s.lobbies.contains_key((region, id)) {
        mean_rating(s.players, s.lobbies[(region, id)].players)
    } else {
        0
    }
}

/// The sum of ratings is at most the number of members times the highest
/// rating there can be.
pub proof fn lemma_rating_sum_bound(players: Map<PlayerID, PlayerInfo>, members: Seq<PlayerID>)
    ensures
        rating_sum(players, members) <= members.len() * usize::MAX,
    decreases members.len(),
{
    if members.len() > 0 {
        lemma_rating_sum_bound(players, members.drop_last());
        assert((members.len() - 1) * usize::MAX + usize::MAX == members.len() * usize::MAX)
            by (nonlinear_arith);
    }
}

/// The mean rating is a rating: it fits the machine integer of ratings.
pub proof fn lemma_mean_rating_bound(players: Map<PlayerID, PlayerInfo>, members: Seq<PlayerID>)
    ensures
        mean_rating(players, members) <= usize::MAX,
{
    if members.len() > 0 {
        lemma_rating_sum_bound(players, members);
        let n = members.len() as int;
        let s = rating_sum(players, members) as int;
        let m = usize::MAX as int;
        assert(s / n <= m) by (nonlinear_arith)
            requires
                n > 0,
                0 <= s <= n * m,
        ;
    }
}

/// Two registries that agree on every member give the same sum.
pub proof fn lemma_rating_sum_agrees(
    a: Map<PlayerID, PlayerInfo>,
    b: Map<PlayerID, PlayerInfo>,
    members: Seq<PlayerID>,
)
    requires
        forall|i: int| 0 <= i < members.len() ==> rating_of(a, #[trigger] members[i]) == rating_of(b, members[i]),
    ensures
        rating_sum(a, members) == rating_sum(b, members),
    decreases members.len(),
{
    if members.len() > 0 {
        let rest = members.drop_last();
        assert forall|i: int| 0 <= i < rest.len() implies rating_of(a, #[trigger] rest[i]) == rating_of(b, rest[i]) by {
            assert(rest[i] == members[i]);
        }
        lemma_rating_sum_agrees(a, b, rest);
        assert(members.last() == members[members.len() - 1]);
    }
}

/// The registries and queues of a server.
pub struct DataStore {
    user_endpoint_map: IdMap,
    endpoint_user_map: IdMap,
    global_lobby_map: Vec<LobbyMap>,
    region_lobby_map: RegionMap,
    player_map: PlayerMap,
    competitive_queue_map: Vec<CompetitiveQueue>,
    casual_queue_map: Vec<CasualQueue>,
    server_params: ServerParams,
}

impl View for DataStore {
    type V = StoreView;

    closed spec fn view(&self) -> StoreView {
        StoreView {
            user_endpoints: id_entries(self.user_endpoint_map),
            endpoint_users: id_entries(self.endpoint_user_map),
            lobbies: Map::new(
                |k: (Region, LobbyID)| lobby_entries(self.global_lobby_map@[k.0.spec_index()]).contains_key(k.1),
                |k: (Region, LobbyID)| lobby_entries(self.global_lobby_map@[k.0.spec_index()])[k.1],
            ),
            lobby_regions: region_entries(self.region_lobby_map),
            players: player_entries(self.player_map),
            casual: Map::new(|r: Region| true, |r: Region| self.casual_queue_map@[r.spec_index()]@),
            competitive: Map::new(|r: Region| true, |r: Region| self.competitive_queue_map@[r.spec_index()]@),
            lobby_size: self.server_params.player_count,
        }
    }
}

impl DataStore {
    /// Whether the store is well formed: it has a bucket and two queues for
    /// each region, and the competitive queues are ordered by rating.
    pub closed spec fn wf(&self) -> bool {
        &&& self.global_lobby_map@.len() == REGION_COUNT
        &&& self.competitive_queue_map@.len() == REGION_COUNT
        &&& self.casual_queue_map@.len() == REGION_COUNT
        &&& forall|i: int| 0 <= i < REGION_COUNT ==> (#[trigger] self.competitive_queue_map@[i]).wf()
    }

    /// In a well-formed store every region has both queues, and its
    /// competitive queue is ordered by rating.
    pub proof fn lemma_wf(&self)
        requires
            self.wf(),
        ensures
            forall|r: Region| #[trigger] self@.casual.contains_key(r),
            forall|r: Region| #[trigger] self@.competitive.contains_key(r),
            forall|r: Region| sorted_by_rating(#[trigger] self@.competitive[r]),
    {
        assert forall|r: Region| sorted_by_rating(#[trigger] self@.competitive[r]) by {
            assert(self.competitive_queue_map@[r.spec_index()].wf());
        }
    }

    /// A store without players, lobbies or queued lobbies.
    pub fn new(server_params: ServerParams) -> (store: DataStore)
        ensures
            store.wf(),
            store@ == empty_store(server_params.player_count),
    {
        let mut buckets: Vec<LobbyMap> = Vec::new();
        let mut competitive: Vec<CompetitiveQueue> = Vec::new();
        let mut casual: Vec<CasualQueue> = Vec::new();
        let mut i: usize = 0;
        while i < REGION_COUNT
            invariant
                i <= REGION_COUNT,
                buckets@.len() == i,
                competitive@.len() == i,
                casual@.len() == i,
                forall|j: int| 0 <= j < i ==> lobby_entries(#[trigger] buckets@[j]) == Map::<LobbyID, LobbyView>::empty(),
                forall|j: int| 0 <= j < i ==> (#[trigger] competitive@[j])@ == Seq::<RatedView>::empty(),
                forall|j: int| 0 <= j < i ==> (#[trigger] casual@[j])@ == Seq::<LobbyView>::empty(),
            decreases REGION_COUNT - i,
        {
            buckets.push(lobby_map_new());
            competitive.push(CompetitiveQueue::new());
            casual.push(CasualQueue::new());
            i += 1;
        }
        let store = DataStore {
            user_endpoint_map: id_map_new(),
            endpoint_user_map: id_map_new(),
            global_lobby_map: buckets,
            region_lobby_map: region_map_new(),
            player_map: player_map_new(),
            competitive_queue_map: competitive,
            casual_queue_map: casual,
            server_params,
        };
        assert(store@ =~~= empty_store(server_params.player_count));
        store
    }

    /// The number of players that fill a lobby.
    pub fn lobby_size(&self) -> (n: usize)
        ensures
            n == self@.lobby_size,
    {
        self.server_params.player_count
    }

    /// Binds the endpoint and the player to each other.
    pub fn add_user_endpoint_with(&mut self, endpoint: EndpointID, user_id: PlayerID)
        requires
            old(self).wf(),
        ensures
            final(self).wf(),
            final(self)@ == (StoreView {
                user_endpoints: old(self)@.user_endpoints.insert(user_id, endpoint),
                endpoint_users: old(self)@.endpoint_users.insert(endpoint, user_id),
                ..old(self)@
            }),
    {
        id_map_insert(&mut self.user_endpoint_map, user_id, endpoint);
        id_map_insert(&mut self.endpoint_user_map, endpoint, user_id);
    }

    /// Mints an identifier for the player behind the endpoint and binds the
    /// two to each other.
    pub fn add_user_endpoint(&mut self, endpoint: EndpointID) -> (user_id: PlayerID)
        requires
            old(self).wf(),
        ensures
            final(self).wf(),
            is_random_uuid(user_id),
            final(self)@ == (StoreView {
                user_endpoints: old(self)@.user_endpoints.insert(user_id, endpoint),
                endpoint_users: old(self)@.endpoint_users.insert(endpoint, user_id),
                ..old(self)@
            }),
    {
        let user_id = mint_id();
        self.add_user_endpoint_with(endpoint, user_id);
        user_id
    }

    /// Every connected player with its endpoint, once, in no fixed order.
    pub fn list_user_endpoints(&self) -> (r: Vec<(PlayerID, EndpointID)>)
        ensures
            lists_ids(r@, self@.user_endpoints),
    {
        id_map_list(&self.user_endpoint_map)
    }

    /// The endpoints of the connected players, in no fixed order.
    pub fn get_all_user_endpoints(&self) -> (r: Vec<EndpointID>)
        ensures
            exists|pairs: Seq<(PlayerID, EndpointID)>|
                lists_ids(pairs, self@.user_endpoints) && r@ == pairs.map_values(
                    |p: (PlayerID, EndpointID)| p.1,
                ),
    {
        let pairs = self.list_user_endpoints();
        let mut r: Vec<EndpointID> = Vec::new();
        let mut i: usize = 0;
        while i < pairs.len()
            invariant
                i <= pairs@.len(),
                r@ == pairs@.take(i as int).map_values(|p: (PlayerID, EndpointID)| p.1),
            decreases pairs@.len() - i,
        {
            r.push(pairs[i].1);
            assert(pairs@.take(i + 1).map_values(|p: (PlayerID, EndpointID)| p.1) =~= pairs@.take(
                i as int,
            ).map_values(|p: (PlayerID, EndpointID)| p.1).push(pairs@[i as int].1));
            i += 1;
        }
        assert(pairs@.take(pairs@.len() as int) == pairs@);
        r
    }

    /// The endpoint of a player, if the player is connected.
    pub fn get_user_endpoint(&self, user_id: PlayerID) -> (r: Option<EndpointID>)
        ensures
            r == self@.user_endpoints.get(user_id),
    {
        id_map_get(&self.user_endpoint_map, user_id)
    }

    /// The player behind an endpoint, if the endpoint is connected.
    pub fn get_user(&self, endpoint: EndpointID) -> (r: Option<PlayerID>)
        ensures
            r == self@.endpoint_users.get(endpoint),
    {
        id_map_get(&self.endpoint_user_map, endpoint)
    }

    /// Unbinds the endpoint and the player behind it. Without effect on an
    /// endpoint that is not connected.
    pub fn remove_user_endpoint(&mut self, endpoint: EndpointID)
        requires
            old(self).wf(),
        ensures
            final(self).wf(),
            final(self)@ == (StoreView {
                user_endpoints: match old(self)@.endpoint_users.get(endpoint) {
                    Some(user_id) => old(self)@.user_endpoints.remove(user_id),
                    None => old(self)@.user_endpoints,
                },
                endpoint_users: old(self)@.endpoint_users.remove(endpoint),
                ..old(self)@
            }),
    {
        let user_id = self.get_user(endpoint);
        if let Some(user_id) = user_id {
            let _ = id_map_remove(&mut self.user_endpoint_map, user_id);
        }
        let _ = id_map_remove(&mut self.endpoint_user_map, endpoint);
    }

    /// Registers a player, in no lobby.
    pub fn add_player(&mut self, player_id: PlayerID, player: Player)
        requires
            old(self).wf(),
        ensures
            final(self).wf(),
            final(self)@ == (StoreView {
                players: old(self)@.players.insert(player_id, (player, None::<LobbyID>)),
                ..old(self)@
            }),
    {
        player_map_insert(&mut self.player_map, player_id, (player, None));
    }

    /// Replaces the profile of a registered player where one is given, and
    /// sets the player's lobby where one is given. Without effect on a player
    /// that is not registered.
    pub fn edit_player(&mut self, player_id: PlayerID, player: Option<Player>, lobby_id: Option<LobbyID>)
        requires
            old(self).wf(),
        ensures
            final(self).wf(),
            final(self)@ == (StoreView {
                players: match old(self)@.players.get(player_id) {
                    Some(info) => old(self)@.players.insert(
                        player_id,
                        (
                            if player is Some {
                                player->Some_0
                            } else {
                                info.0
                            },
                            if lobby_id is Some {
                                lobby_id
                            } else {
                                info.1
                            },
                        ),
                    ),
                    None => old(self)@.players,
                },
                ..old(self)@
            }),
    {
        if let Some(info) = player_map_get(&self.player_map, player_id) {
            let profile = match player {
                Some(p) => p,
                None => info.0,
            };
            let lobby = match lobby_id {
                Some(l) => Some(l),
                None => info.1,
            };
            player_map_insert(&mut self.player_map, player_id, (profile, lobby));
        }
    }

    /// Takes a registered player out of its lobby. Without effect on a player
    /// that is not registered.
    pub fn remove_player_lobby(&mut self, player_id: PlayerID)
        requires
            old(self).wf(),
        ensures
            final(self).wf(),
            final(self)@ == (StoreView {
                players: match old(self)@.players.get(player_id) {
                    Some(info) => old(self)@.players.insert(player_id, (info.0, None::<LobbyID>)),
                    None => old(self)@.players,
                },
                ..old(self)@
            }),
    {
        if let Some(info) = player_map_get(&self.player_map, player_id) {
            player_map_insert(&mut self.player_map, player_id, (info.0, None));
        }
    }

    /// The profile and lobby of a player, if the player is registered.
    pub fn get_player_info(&self, player_id: PlayerID) -> (r: Option<PlayerInfo>)
        ensures
            r == self@.players.get(player_id),
    {
        player_map_get(&self.player_map, player_id)
    }

    /// Forgets a player.
    pub fn delete_player(&mut self, player_id: PlayerID)
        requires
            old(self).wf(),
        ensures
            final(self).wf(),
            final(self)@ == (StoreView { players: old(self)@.players.remove(player_id), ..old(self)@ }),
    {
        let _ = player_map_remove(&mut self.player_map, player_id);
    }
}

/// Whether `list` names every public lobby of `region` once and nothing else.
pub open spec fn lists_public(list: Seq<LobbyView>, s: StoreView, region: Region) -> bool {
    exists|keys: Seq<LobbyID>|
        {
            &&& keys.len() == list.len()
            &&& forall|i: int, j: int| 0 <= i < j < keys.len() ==> keys[i] != keys[j]
            &&& forall|i: int|
                0 <= i < keys.len() ==> {
                    &&& s.lobbies.contains_key((region, #[trigger] keys[i]))
                    &&& s.lobbies[(region, keys[i])] == list[i]
                    &&& list[i].params.visibility == Visibility::Public
                }
            &&& forall|id: LobbyID|
                #![trigger s.lobbies.contains_key((region, id))]
                s.lobbies.contains_key((region, id)) && s.lobbies[(region, id)].params.visibility
                    == Visibility::Public ==> keys.contains(id)
        }
}

impl DataStore {
    /// Puts a lobby into the bucket of a region, under an identifier.
    pub fn create_lobby(&mut self, outer_key: Region, inner_key: LobbyID, inner_value: Lobby)
        requires
            old(self).wf(),
        ensures
            final(self).wf(),
            final(self)@ == (StoreView {
                lobbies: old(self)@.lobbies.insert((outer_key, inner_key), inner_value@),
                ..old(self)@
            }),
    {
        let i = outer_key.index();
        lobby_map_insert(&mut self.global_lobby_map[i], inner_key, inner_value);
        proof {
            assert(self@.lobbies =~= old(self)@.lobbies.insert((outer_key, inner_key), inner_value@));
        }
    }

    /// Replaces the lobby that a region holds under an identifier, or puts it
    /// there. Never fails.
    pub fn edit_lobby(&mut self, outer_key: Region, inner_key: LobbyID, new_value: Lobby) -> (r: Result<
        (),
        GameSyncError,
    >)
        requires
            old(self).wf(),
        ensures
            final(self).wf(),
            r is Ok,
            final(self)@ == (StoreView {
                lobbies: old(self)@.lobbies.insert((outer_key, inner_key), new_value@),
                ..old(self)@
            }),
    {
        self.create_lobby(outer_key, inner_key, new_value);
        Ok(())
    }

    /// Takes the lobby with the identifier out of the bucket of a region.
    /// Never fails.
    pub fn delete_lobby(&mut self, outer_key: Region, inner_key: LobbyID) -> (r: Result<(), GameSyncError>)
        requires
            old(self).wf(),
        ensures
            final(self).wf(),
            r is Ok,
            final(self)@ == (StoreView {
                lobbies: old(self)@.lobbies.remove((outer_key, inner_key)),
                ..old(self)@
            }),
    {
        let i = outer_key.index();
        let _ = lobby_map_remove(&mut self.global_lobby_map[i], inner_key);
        proof {
            assert(self@.lobbies =~= old(self)@.lobbies.remove((outer_key, inner_key)));
        }
        Ok(())
    }

    /// A copy of the lobby that a region holds under an identifier.
    pub fn get_lobby(&self, outer_key: Region, inner_key: LobbyID) -> (r: Option<Lobby>)
        requires
            self.wf(),
        ensures
            r is Some == self@.lobbies.contains_key((outer_key, inner_key)),
            r is Some ==> r->Some_0@ == self@.lobbies[(outer_key, inner_key)],
    {
        let i = outer_key.index();
        lobby_map_get(&self.global_lobby_map[i], inner_key)
    }

    /// Copies of the public lobbies of a region, in no fixed order.
    pub fn get_region_lobbies(&self, region: Region) -> (r: Vec<Lobby>)
        requires
            self.wf(),
        ensures
            lists_public(lobby_views(r@), self@, region),
    {
        let i = region.index();
        let all = lobby_map_list(&self.global_lobby_map[i]);
        let mut r: Vec<Lobby> = Vec::new();
        let ghost mut keys: Seq<LobbyID> = Seq::empty();
        let ghost mut from: Seq<int> = Seq::empty();
        let mut k: usize = 0;
        while k < all.len()
            invariant
                k <= all@.len(),
                i == region.spec_index(),
                self.wf(),
                lists_lobbies(all@, lobby_entries(self.global_lobby_map@[i as int])),
                keys.len() == r@.len(),
                from.len() == r@.len(),
                forall|a: int| 0 <= a < from.len() ==> 0 <= #[trigger] from[a] < k,
                forall|a: int, b: int| 0 <= a < b < from.len() ==> from[a] < from[b],
                forall|a: int| 0 <= a < keys.len() ==> #[trigger] keys[a] == all@[from[a]].0,
                forall|a: int| 0 <= a < keys.len() ==> (#[trigger] r@[a])@ == all@[from[a]].1@,
                forall|a: int|
                    0 <= a < keys.len() ==> (#[trigger] r@[a])@.params.visibility == Visibility::Public,
                forall|j: int|
                    0 <= j < k && (#[trigger] all@[j]).1@.params.visibility == Visibility::Public
                        ==> keys.contains(all@[j].0),
            decreases all@.len() - k,
        {
            if all[k].1.params.visibility == Visibility::Public {
                r.push(all[k].1.clone());
                proof {
                    let before = keys;
                    let before_from = from;
                    keys = keys.push(all@[k as int].0);
                    from = from.push(k as int);
                    assert forall|a: int| 0 <= a < keys.len() implies #[trigger] keys[a] == all@[from[a]].0 by {
                        if a < before.len() {
                            assert(keys[a] == before[a]);
                            assert(from[a] == before_from[a]);
                        }
                    }
                    assert forall|a: int| 0 <= a < keys.len() implies (#[trigger] r@[a])@ == all@[from[a]].1@ by {
                        if a < before.len() {
                            assert(from[a] == before_from[a]);
                        }
                    }
                    assert forall|j: int|
                        0 <= j < k + 1 && (#[trigger] all@[j]).1@.params.visibility
                            == Visibility::Public implies keys.contains(all@[j].0) by {
                        if j < k {
                            let w = choose|w: int| 0 <= w < before.len() && before[w] == all@[j].0;
                            assert(keys[w] == all@[j].0);
                        } else {
                            assert(keys[keys.len() - 1] == all@[j].0);
                        }
                    }
                }
            }
            k += 1;
        }
        proof {
            let s = self@;
            let list = lobby_views(r@);
            assert forall|a: int, b: int| 0 <= a < b < keys.len() implies keys[a] != keys[b] by {
                assert(all@[from[a]].0 != all@[from[b]].0);
            }
            assert forall|a: int| 0 <= a < keys.len() implies {
                &&& s.lobbies.contains_key((region, #[trigger] keys[a]))
                &&& s.lobbies[(region, keys[a])] == list[a]
                &&& list[a].params.visibility == Visibility::Public
            } by {
                assert(keys[a] == all@[from[a]].0);
            }
            assert forall|id: LobbyID|
                #![trigger s.lobbies.contains_key((region, id))]
                s.lobbies.contains_key((region, id)) && s.lobbies[(region, id)].params.visibility
                    == Visibility::Public implies keys.contains(id) by {
                let j = choose|j: int| 0 <= j < all@.len() && (#[trigger] all@[j]).0 == id;
                assert(all@[j].1@.params.visibility == Visibility::Public);
            }
            assert(lists_public(list, s, region));
        }
        r
    }

    /// Records the region under which a lobby is to be found.
    pub fn create_region_lobby(&mut self, lobby_id: LobbyID, region: Region)
        requires
            old(self).wf(),
        ensures
            final(self).wf(),
            final(self)@ == (StoreView {
                lobby_regions: old(self)@.lobby_regions.insert(lobby_id, region),
                ..old(self)@
            }),
    {
        region_map_insert(&mut self.region_lobby_map, lobby_id, region);
    }

    /// The region under which a lobby is to be found.
    pub fn get_region_lobby(&self, lobby_id: LobbyID) -> (r: Option<Region>)
        ensures
            r == self@.lobby_regions.get(lobby_id),
    {
        region_map_get(&self.region_lobby_map, lobby_id)
    }

    /// Forgets the region of a lobby. Fails on a lobby whose region is not
    /// recorded.
    pub fn delete_region_lobby(&mut self, lobby_id: LobbyID) -> (r: Result<(), GameSyncError>)
        requires
            old(self).wf(),
        ensures
            final(self).wf(),
            r == (if old(self)@.lobby_regions.contains_key(lobby_id) {
                Ok::<(), GameSyncError>(())
            } else {
                Err::<(), GameSyncError>(GameSyncError::LobbyFindError)
            }),
            final(self)@ == (StoreView {
                lobby_regions: old(self)@.lobby_regions.remove(lobby_id),
                ..old(self)@
            }),
    {
        match region_map_remove(&mut self.region_lobby_map, lobby_id) {
            Some(_) => Ok(()),
            None => {
                proof {
                    assert(self@.lobby_regions =~= old(self)@.lobby_regions.remove(lobby_id));
                }
                Err(GameSyncError::LobbyFindError)
            },
        }
    }

    /// The average rating of a lobby of a region: the mean of the ratings of
    /// its members, rounded down; zero for a lobby that is unknown or empty.
    pub fn get_lobby_average_rating(&self, region: Region, lobby_id: LobbyID) -> (r: usize)
        requires
            self.wf(),
        ensures
            r == average_rating(self@, region, lobby_id),
    {
        match self.get_lobby(region, lobby_id) {
            None => 0,
            Some(lobby) => {
                let n = lobby.player_list.len();
                if n == 0 {
                    return 0;
                }
                let ghost members = lobby.player_list@;
                let ghost players = self@.players;
                let mut sum: u128 = 0;
                let mut i: usize = 0;
                while i < n
                    invariant
                        i <= n,
                        n == members.len(),
                        members == lobby.player_list@,
                        players == self@.players,
                        sum == rating_sum(players, members.take(i as int)),
                    decreases n - i,
                {
                    let rating = match self.get_player_info(lobby.player_list[i]) {
                        Some(info) => info.0.rating,
                        None => 0,
                    };
                    proof {
                        let next = members.take(i + 1);
                        assert(next.drop_last() == members.take(i as int));
                        assert(next.last() == members[i as int]);
                        lemma_rating_sum_bound(players, next);
                        assert(next.len() * usize::MAX <= usize::MAX * usize::MAX) by (nonlinear_arith)
                            requires
                                next.len() <= usize::MAX,
                        ;
                        assert(usize::MAX * usize::MAX < u128::MAX) by (nonlinear_arith);
                    }
                    sum = sum + rating as u128;
                    i += 1;
                }
                proof {
                    assert(members.take(n as int) == members);
                    lemma_mean_rating_bound(players, members);
                }
                (sum / (n as u128)) as usize
            },
        }
    }

    /// Appends a lobby to the casual queue of a region.
    pub fn add_casual_lobby(&mut self, region: Region, lobby: Lobby)
        requires
            old(self).wf(),
        ensures
            final(self).wf(),
            final(self)@ == (StoreView {
                casual: old(self)@.casual.insert(region, old(self)@.casual[region].push(lobby@)),
                ..old(self)@
            }),
    {
        let i = region.index();
        self.casual_queue_map[i].add(lobby);
        proof {
            assert(self@.casual =~= old(self)@.casual.insert(region, old(self)@.casual[region].push(lobby@)));
        }
    }

    /// A copy of the casual queue of a region, head first. Every region has
    /// one.
    pub fn get_casual_lobbies(&self, region: Region) -> (r: Option<VecDeque<Lobby>>)
        requires
            self.wf(),
        ensures
            r is Some,
            lobby_views(r->Some_0@) == self@.casual[region],
    {
        let i = region.index();
        Some(self.casual_queue_map[i].snapshot())
    }

    /// Pairs a lobby with the head-most other lobby of the casual queue of a
    /// region and takes both out of the queue. Where the lobby is not queued
    /// or is alone, nothing changes.
    pub fn check_casual_lobby(&mut self, region: Region, lobby_id: LobbyID) -> (r: Option<(Lobby, Lobby)>)
        requires
            old(self).wf(),
        ensures
            final(self).wf(),
            match casual_pair(old(self)@.casual[region], lobby_id) {
                Some((t, p)) => {
                    &&& r is Some
                    &&& r->Some_0.0@ == old(self)@.casual[region][t]
                    &&& r->Some_0.1@ == old(self)@.casual[region][p]
                    &&& final(self)@ == (StoreView {
                        casual: old(self)@.casual.insert(region, remove_pair(old(self)@.casual[region], t, p)),
                        ..old(self)@
                    })
                },
                None => r is None && final(self)@ == old(self)@,
            },
    {
        let i = region.index();
        let r = self.casual_queue_map[i].try_match(lobby_id);
        proof {
            assert(self@.casual =~= old(self)@.casual.insert(region, self@.casual[region]));
        }
        r
    }

    /// Takes a lobby out of the casual queue of a region; the others keep
    /// their order.
    pub fn remove_casual_lobby(&mut self, region: Region, lobby_id: LobbyID)
        requires
            old(self).wf(),
        ensures
            final(self).wf(),
            final(self)@ == (StoreView {
                casual: old(self)@.casual.insert(
                    region,
                    remove_at(old(self)@.casual[region], first_where(old(self)@.casual[region], has_id(lobby_id))),
                ),
                ..old(self)@
            }),
    {
        let i = region.index();
        self.casual_queue_map[i].remove(lobby_id);
        proof {
            assert(self@.casual =~= old(self)@.casual.insert(region, self@.casual[region]));
        }
    }

    /// Places a lobby in the competitive queue of a region, by the average
    /// rating it has now: behind the lobbies rated no higher, before those
    /// rated higher.
    pub fn add_competitive_lobby(&mut self, region: Region, lobby: Lobby)
        requires
            old(self).wf(),
        ensures
            final(self).wf(),
            final(self)@ == (StoreView {
                competitive: old(self)@.competitive.insert(
                    region,
                    old(self)@.competitive[region].insert(
                        first_where(
                            old(self)@.competitive[region],
                            rated_above(average_rating(old(self)@, region, lobby.lobby_id) as usize),
                        ),
                        RatedView {
                            rating: average_rating(old(self)@, region, lobby.lobby_id) as usize,
                            lobby: lobby@,
                        },
                    ),
                ),
                ..old(self)@
            }),
    {
        let i = region.index();
        let rating = self.get_lobby_average_rating(region, lobby.lobby_id);
        self.competitive_queue_map[i].add(rating, lobby);
        proof {
            assert(self@.competitive =~= old(self)@.competitive.insert(region, self@.competitive[region]));
        }
    }

    /// A copy of the lobbies in the competitive queue of a region, lowest
    /// rating first. Every region has one.
    pub fn get_competitive_lobbies(&self, region: Region) -> (r: Option<Vec<Lobby>>)
        requires
            self.wf(),
        ensures
            r is Some,
            lobby_views(r->Some_0@) == unrated(self@.competitive[region]),
    {
        let i = region.index();
        Some(self.competitive_queue_map[i].snapshot())
    }

    /// Matches a lobby that tolerates `threshold` with the first acceptable
    /// lobby of the competitive queue of a region and takes both out of the
    /// queue. Where the lobby is not queued or no lobby is acceptable,
    /// nothing changes.
    pub fn check_competitive_lobby(&mut self, region: Region, lobby_id: LobbyID, threshold: usize) -> (r:
        Option<(Lobby, Lobby)>)
        requires
            old(self).wf(),
        ensures
            final(self).wf(),
            match competitive_pair(old(self)@.competitive[region], lobby_id, threshold) {
                Some((t, c)) => {
                    &&& r is Some
                    &&& r->Some_0.0@ == old(self)@.competitive[region][t].lobby
                    &&& r->Some_0.1@ == old(self)@.competitive[region][c].lobby
                    &&& final(self)@ == (StoreView {
                        competitive: old(self)@.competitive.insert(
                            region,
                            remove_pair(old(self)@.competitive[region], t, c),
                        ),
                        ..old(self)@
                    })
                },
                None => r is None && final(self)@ == old(self)@,
            },
    {
        let i = region.index();
        let r = self.competitive_queue_map[i].try_match(lobby_id, threshold);
        proof {
            assert(self@.competitive =~= old(self)@.competitive.insert(region, self@.competitive[region]));
        }
        r
    }

    /// Takes a lobby out of the competitive queue of a region; the others
    /// keep their order.
    pub fn remove_competitive_lobby(&mut self, region: Region, lobby_id: LobbyID)
        requires
            old(self).wf(),
        ensures
            final(self).wf(),
            final(self)@ == (StoreView {
                competitive: old(self)@.competitive.insert(
                    region,
                    remove_at(
                        old(self)@.competitive[region],
                        first_where(old(self)@.competitive[region], rated_has_id(lobby_id)),
                    ),
                ),
                ..old(self)@
            }),
    {
        let i = region.index();
        self.competitive_queue_map[i].remove(lobby_id);
        proof {
            assert(self@.competitive =~= old(self)@.competitive.insert(region, self@.competitive[region]));
        }
    }
}

} // verus!
