//! What holds of the store between any two requests.

use crate::lobby::{GameMode, LobbyID, LobbyStatus, LobbyView, PlayerID, Region};
use crate::model::find_lobby;
use crate::queue::sorted_by_rating;
use crate::store::{average_rating, empty_store, EndpointID, StoreView};
use vstd::prelude::*;

verus! {

/// Endpoints and players are bound one to one: each binding is recorded in
/// both directions.
pub open spec fn identity_bijective(s: StoreView) -> bool {
    &&& forall|p: PlayerID| #[trigger]
        s.user_endpoints.contains_key(p) ==> s.endpoint_users.contains_key(s.user_endpoints[p])
            && s.endpoint_users[s.user_endpoints[p]] == p
    &&& forall|e: EndpointID| #[trigger]
        s.endpoint_users.contains_key(e) ==> s.user_endpoints.contains_key(s.endpoint_users[e])
            && s.user_endpoints[s.endpoint_users[e]] == e
}

/// The registered players are the connected ones, each under its own
/// identifier.
pub open spec fn players_registered(s: StoreView) -> bool {
    &&& forall|p: PlayerID| #[trigger] s.players.contains_key(p) <==> s.user_endpoints.contains_key(p)
    &&& forall|p: PlayerID| #[trigger] s.players.contains_key(p) ==> s.players[p].0.player_id == p
}

/// The index names the region of a lobby exactly where the bucket of that
/// region holds the lobby, and each lobby is held under its own identifier
/// and region.
pub open spec fn index_mirrors_buckets(s: StoreView) -> bool {
    &&& forall|r: Region, l: LobbyID| #[trigger]
        s.lobbies.contains_key((r, l)) <==> s.lobby_regions.contains_key(l) && s.lobby_regions[l] == r
    &&& forall|r: Region, l: LobbyID| #[trigger]
        s.lobbies.contains_key((r, l)) ==> s.lobbies[(r, l)].lobby_id == l && s.lobbies[(r, l)].params.region
            == r
}

/// A player is a member of a lobby exactly where the registry names that
/// lobby as the player's; no lobby lists a member twice.
pub open spec fn membership_mirrored(s: StoreView) -> bool {
    &&& forall|r: Region, l: LobbyID, p: PlayerID|
        s.lobbies.contains_key((r, l)) && #[trigger] s.lobbies[(r, l)].players.contains(p)
            ==> s.players.contains_key(p) && s.players[p].1 == Some(l)
    &&& forall|p: PlayerID| #[trigger]
        s.players.contains_key(p) && s.players[p].1 is Some ==> find_lobby(s, s.players[p].1->Some_0) is Some
            && find_lobby(s, s.players[p].1->Some_0)->Some_0.players.contains(p)
    &&& forall|r: Region, l: LobbyID| #[trigger]
        s.lobbies.contains_key((r, l)) ==> s.lobbies[(r, l)].players.no_duplicates()
}

/// The leader of a lobby is its first member.
pub open spec fn leader_first(s: StoreView) -> bool {
    forall|r: Region, l: LobbyID| #[trigger]
        s.lobbies.contains_key((r, l)) ==> s.lobbies[(r, l)].players.len() > 0 && s.lobbies[(r, l)].players[0]
            == s.lobbies[(r, l)].leader
}

/// No lobby has more members than fill it, and a queueing lobby is full.
pub open spec fn sizes_bounded(s: StoreView) -> bool {
    &&& s.lobby_size > 0
    &&& forall|r: Region, l: LobbyID| #[trigger]
        s.lobbies.contains_key((r, l)) ==> s.lobbies[(r, l)].players.len() <= s.lobby_size && (s.lobbies[(
            r,
            l,
        )].status == LobbyStatus::Queueing ==> s.lobbies[(r, l)].players.len() == s.lobby_size)
}

/// Whether the lobby `e`, queued in `region` for `mode`, is the lobby that
/// the store holds under its identifier, and is queueing for that mode.
pub open spec fn rightly_queued(s: StoreView, region: Region, mode: GameMode, e: LobbyView) -> bool {
    &&& s.lobbies.contains_key((region, e.lobby_id))
    &&& s.lobbies[(region, e.lobby_id)] == e
    &&& e.status == LobbyStatus::Queueing
    &&& e.params.mode == mode
}

/// Whether the casual queue of a region is at a lobby.
pub open spec fn in_casual(s: StoreView, region: Region, l: LobbyID) -> bool {
    exists|i: int| 0 <= i < s.casual[region].len() && (#[trigger] s.casual[region][i]).lobby_id == l
}

/// Whether the competitive queue of a region is at a lobby.
pub open spec fn in_competitive(s: StoreView, region: Region, l: LobbyID) -> bool {
    exists|i: int| 0 <= i < s.competitive[region].len() && (#[trigger] s.competitive[region][i]).lobby.lobby_id == l
}

/// A lobby stands in a queue exactly where it is queueing: in the queue of
/// its region and mode, once, as the store holds it.
pub open spec fn queues_mirror_status(s: StoreView) -> bool {
    &&& forall|r: Region, i: int|
        0 <= i < s.casual[r].len() ==> rightly_queued(s, r, GameMode::Casual, #[trigger] s.casual[r][i])
    &&& forall|r: Region, i: int, j: int|
        0 <= i < j < s.casual[r].len() ==> (#[trigger] s.casual[r][i]).lobby_id != (#[trigger] s.casual[r][j]).lobby_id
    &&& forall|r: Region, i: int|
        0 <= i < s.competitive[r].len() ==> rightly_queued(
            s,
            r,
            GameMode::Competitive,
            (#[trigger] s.competitive[r][i]).lobby,
        )
    &&& forall|r: Region, i: int, j: int|
        0 <= i < j < s.competitive[r].len() ==> (#[trigger] s.competitive[r][i]).lobby.lobby_id != (
        #[trigger] s.competitive[r][j]).lobby.lobby_id
    &&& forall|r: Region, l: LobbyID| #[trigger]
        s.lobbies.contains_key((r, l)) && s.lobbies[(r, l)].status == LobbyStatus::Queueing ==> (match s.lobbies[(
            r,
            l,
        )].params.mode {
            GameMode::Casual => in_casual(s, r, l),
            GameMode::Competitive => in_competitive(s, r, l),
        })
}

/// Each competitive queue is ordered by rating, and the rating of each
/// entry is the average rating that its lobby has now.
pub open spec fn competitive_sorted(s: StoreView) -> bool {
    &&& forall|r: Region| sorted_by_rating(#[trigger] s.competitive[r])
    &&& forall|r: Region, i: int|
        0 <= i < s.competitive[r].len() ==> (#[trigger] s.competitive[r][i]).rating == average_rating(
            s,
            r,
            s.competitive[r][i].lobby.lobby_id,
        )
}

/// Everything that holds of the store between any two requests.
pub open spec fn consistent(s: StoreView) -> bool {
    &&& identity_bijective(s)
    &&& players_registered(s)
    &&& index_mirrors_buckets(s)
    &&& membership_mirrored(s)
    &&& leader_first(s)
    &&& sizes_bounded(s)
    &&& queues_mirror_status(s)
    &&& competitive_sorted(s)
}

/// A store without players and lobbies is consistent.
pub proof fn lemma_empty_store_consistent(lobby_size: usize)
    requires
        lobby_size > 0,
    ensures
        consistent(empty_store(lobby_size)),
{
}

} // verus!
