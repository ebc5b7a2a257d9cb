//! What follows for every consistent store, and how requests relate to each
//! other.

use crate::error::GameSyncError;
use crate::events::{Action, ClientEvent};
use crate::events::{ActionView, EventView};
use crate::invariants::{consistent, in_casual, in_competitive, rightly_queued};
use crate::lobby::{GameMode, LobbyID, LobbyStatus, LobbyView, PlayerID, Region};
use crate::networking::{handled, outcome_is};
use crate::model::{
    connect_outcome, delete_lobby_outcome, disconnect_outcome, edit_player_outcome, leave_game_outcome,
    queue_lobby_outcome,
    create_lobby_outcome,
    check_match_outcome, each, fan_out, find_lobby, join_lobby_outcome, leave_lobby_outcome,
    lobby_info_outcome, match_pair, matched_requester, public_lobbies_outcome, queued_at, rejected,
    stop_queue_outcome, to_player, with_status,
};
use crate::preservation::{
    lemma_disconnect_keeps,
    lemma_check_match_keeps, lemma_create_lobby_keeps, lemma_delete_lobby_keeps, lemma_edit_player_keeps,
    lemma_join_lobby_keeps, lemma_leave_game_keeps, lemma_leave_lobby_keeps, lemma_queue_lobby_keeps,
    lemma_stop_queue_keeps,
    lemma_casual_position, lemma_competitive_position, lemma_push_contains, lemma_without,
};
use crate::queue::{
    acceptable, has_id, is_candidate, lemma_first_where, rated_has_id, window_high, window_low,
    windows_meet,
};
use crate::store::{average_rating, EndpointID, StoreView};
use vstd::prelude::*;

verus! {

/// Behind every connected endpoint stands exactly one player: the player
/// that the endpoint resolves to resolves back to the endpoint, and no
/// other player does.
pub proof fn law_one_player_per_endpoint(s: StoreView, e: EndpointID)
    requires
        consistent(s),
        s.endpoint_users.contains_key(e),
    ensures
        s.user_endpoints.get(s.endpoint_users[e]) == Some(e),
        forall|p: PlayerID| s.user_endpoints.get(p) == Some(e) ==> p == s.endpoint_users[e],
{
    assert forall|p: PlayerID| s.user_endpoints.get(p) == Some(e) implies p == s.endpoint_users[e] by {
        assert(s.user_endpoints.contains_key(p));
    }
}

/// A player is a member of a lobby exactly where the player registry names
/// that lobby as the player's current one.
pub proof fn law_membership_mirrors_registry(s: StoreView, r: Region, l: LobbyID, p: PlayerID)
    requires
        consistent(s),
        s.lobbies.contains_key((r, l)),
    ensures
        s.lobbies[(r, l)].players.contains(p) <==> s.players.get(p) is Some && s.players[p].1 == Some(
            s.lobbies[(r, l)].lobby_id,
        ),
{
    if s.players.contains_key(p) && s.players[p].1 == Some(l) {
        assert(find_lobby(s, l) is Some);
    }
}

/// A player is a member of at most one lobby.
pub proof fn law_one_lobby_per_player(s: StoreView, r1: Region, l1: LobbyID, r2: Region, l2: LobbyID, p: PlayerID)
    requires
        consistent(s),
        s.lobbies.contains_key((r1, l1)),
        s.lobbies.contains_key((r2, l2)),
        s.lobbies[(r1, l1)].players.contains(p),
        s.lobbies[(r2, l2)].players.contains(p),
    ensures
        (r1, l1) == (r2, l2),
{
}

/// The leader of a lobby is its first member.
pub proof fn law_leader_is_first_member(s: StoreView, r: Region, l: LobbyID)
    requires
        consistent(s),
        s.lobbies.contains_key((r, l)),
    ensures
        s.lobbies[(r, l)].players.len() > 0,
        s.lobbies[(r, l)].leader == s.lobbies[(r, l)].players[0],
        s.lobbies[(r, l)].players.contains(s.lobbies[(r, l)].leader),
{
    assert(s.lobbies[(r, l)].players[0] == s.lobbies[(r, l)].leader);
}

/// A lobby stands in a queue exactly where it is queueing, and never in
/// both queues.
pub proof fn law_queued_iff_queueing(s: StoreView, r: Region, l: LobbyID)
    requires
        consistent(s),
        s.lobbies.contains_key((r, l)),
    ensures
        (in_casual(s, r, l) || in_competitive(s, r, l)) <==> s.lobbies[(r, l)].status == LobbyStatus::Queueing,
        !(in_casual(s, r, l) && in_competitive(s, r, l)),
{
    if in_casual(s, r, l) {
        let i = choose|i: int| 0 <= i < s.casual[r].len() && (#[trigger] s.casual[r][i]).lobby_id == l;
        assert(rightly_queued(s, r, GameMode::Casual, s.casual[r][i]));
    }
    if in_competitive(s, r, l) {
        let i = choose|i: int| 0 <= i < s.competitive[r].len() && (#[trigger] s.competitive[r][i]).lobby.lobby_id == l;
        assert(rightly_queued(s, r, GameMode::Competitive, s.competitive[r][i].lobby));
    }
}

/// Whatever stands in a queue of a region is a lobby of that region, so no
/// lobby stands in the queues of two regions.
pub proof fn law_queued_in_own_region(s: StoreView, r: Region, l: LobbyID)
    requires
        consistent(s),
        in_casual(s, r, l) || in_competitive(s, r, l),
    ensures
        s.lobby_regions.get(l) == Some(r),
{
    if in_casual(s, r, l) {
        let i = choose|i: int| 0 <= i < s.casual[r].len() && (#[trigger] s.casual[r][i]).lobby_id == l;
        assert(rightly_queued(s, r, GameMode::Casual, s.casual[r][i]));
    } else {
        let i = choose|i: int| 0 <= i < s.competitive[r].len() && (#[trigger] s.competitive[r][i]).lobby.lobby_id == l;
        assert(rightly_queued(s, r, GameMode::Competitive, s.competitive[r][i].lobby));
    }
    assert(s.lobbies.contains_key((r, l)));
}

/// Each competitive queue is ordered by the average ratings that its
/// lobbies have now.
pub proof fn law_competitive_queue_sorted(s: StoreView, r: Region, i: int, j: int)
    requires
        consistent(s),
        0 <= i <= j < s.competitive[r].len(),
    ensures
        average_rating(s, r, s.competitive[r][i].lobby.lobby_id) <= average_rating(
            s,
            r,
            s.competitive[r][j].lobby.lobby_id,
        ),
{
    let q = s.competitive[r];
    assert(q[i].rating == average_rating(s, r, q[i].lobby.lobby_id));
    assert(q[j].rating == average_rating(s, r, q[j].lobby.lobby_id));
    if i < j {
        assert(q[i].rating <= q[j].rating);
    }
}

/// No lobby has more members than fill it, and a queueing lobby is full.
pub proof fn law_sizes_bounded(s: StoreView, r: Region, l: LobbyID)
    requires
        consistent(s),
        s.lobbies.contains_key((r, l)),
    ensures
        s.lobbies[(r, l)].players.len() <= s.lobby_size,
        s.lobbies[(r, l)].status == LobbyStatus::Queueing ==> s.lobbies[(r, l)].players.len() == s.lobby_size,
{
}

/// A lobby whose rating lies in the requester's window always has a window
/// that meets the requester's.
pub proof fn law_inside_window_meets(r1: usize, t1: usize, r2: usize, t2: usize)
    requires
        window_low(r1, t1) <= r2 <= window_high(r1, t1),
    ensures
        windows_meet(r1, t1, r2, t2),
{
}

/// A player that joins a lobby and then leaves it leaves the store as it
/// was before joining.
pub proof fn law_join_then_leave_restores(s: StoreView, p: PlayerID, id: LobbyID)
    requires
        consistent(s),
        join_lobby_outcome(s, p, id).result is Ok,
    ensures
        leave_lobby_outcome(join_lobby_outcome(s, p, id).state, p, id).result is Ok,
        leave_lobby_outcome(join_lobby_outcome(s, p, id).state, p, id).state == s,
{
    let region = s.lobby_regions[id];
    let lobby = s.lobbies[(region, id)];
    let u = join_lobby_outcome(s, p, id).state;
    let joined = u.lobbies[(region, id)];
    assert(s.lobbies.contains_key((region, id)));
    assert(find_lobby(u, id) == Some(joined));
    lemma_push_contains(lobby.players, p);
    assert(!lobby.players.contains(p));
    assert(lobby.players.contains(lobby.leader)) by {
        assert(lobby.players[0] == lobby.leader);
    }
    lemma_without(lobby.players, p);
    assert(joined.players.drop_last() == lobby.players);
    assert(joined.players.last() == p);
    let t = leave_lobby_outcome(u, p, id).state;
    assert(t.lobbies =~= s.lobbies);
    assert(t.players =~= s.players);
    assert(t =~= s);
}

/// `GetLobbyInfo` and `GetPublicLobbies` leave the store as it is.
pub proof fn law_queries_change_nothing(s: StoreView, p: PlayerID, id: LobbyID, list: Seq<LobbyView>)
    ensures
        lobby_info_outcome(s, p, id).state == s,
        public_lobbies_outcome(s, p, list).state == s,
{
}

/// `StopQueue` right after an accepted `StopQueue` is turned down and
/// leaves the store as it is.
pub proof fn law_stop_queue_twice(s: StoreView, p: PlayerID, id: LobbyID)
    requires
        consistent(s),
        stop_queue_outcome(s, p, id).result is Ok,
    ensures
        stop_queue_outcome(stop_queue_outcome(s, p, id).state, p, id) == rejected(
            stop_queue_outcome(s, p, id).state,
            GameSyncError::LobbyStopError,
        ),
{
    let region = s.lobby_regions[id];
    assert(s.lobbies.contains_key((region, id)));
    let u = stop_queue_outcome(s, p, id).state;
    assert(find_lobby(u, id) == Some(with_status(s.lobbies[(region, id)], LobbyStatus::Idle)));
}

/// Where every member is connected, each member in turn is sent the one
/// notification.
pub proof fn lemma_fan_out_connected(endpoints: Map<PlayerID, EndpointID>, members: Seq<PlayerID>, event: EventView)
    requires
        forall|i: int| 0 <= i < members.len() ==> endpoints.contains_key(#[trigger] members[i]),
    ensures
        fan_out(endpoints, members, each(seq![event])) == Seq::new(
            members.len(),
            |i: int| ActionView::Send { endpoint: endpoints[members[i]], event: event },
        ),
    decreases members.len(),
{
    let expected = Seq::new(
        members.len(),
        |i: int| ActionView::Send { endpoint: endpoints[members[i]], event: event },
    );
    if members.len() == 0 {
        assert(fan_out(endpoints, members, each(seq![event])) =~= expected);
    } else {
        let rest = members.drop_last();
        assert forall|i: int| 0 <= i < rest.len() implies endpoints.contains_key(#[trigger] rest[i]) by {
            assert(rest[i] == members[i]);
        }
        lemma_fan_out_connected(endpoints, rest, event);
        assert(endpoints.contains_key(members[members.len() - 1]));
        assert(to_player(endpoints, members.last(), seq![event]) =~= seq![
            ActionView::Send { endpoint: endpoints[members.last()], event: event },
        ]);
        assert(fan_out(endpoints, members, each(seq![event])) =~= expected);
    }
}

/// A match is told to both sides alike: the requester's lobby and the
/// lobby it is matched with are two lobbies without a common member; every
/// member of each is connected and is sent `MatchFound` once, with the
/// other lobby as it enters the game, and nothing else is sent.
pub proof fn law_match_symmetry(s: StoreView, p: PlayerID, id: LobbyID, threshold: usize, t: int, c: int)
    requires
        consistent(s),
        check_match_outcome(s, p, id, threshold).result is Ok,
        find_lobby(s, id) is Some,
        match_pair(s, s.lobby_regions[id], find_lobby(s, id)->Some_0.params.mode, id, threshold) == Some((t, c)),
    ensures
        ({
            let region = s.lobby_regions[id];
            let mode = find_lobby(s, id)->Some_0.params.mode;
            let a = queued_at(s, region, mode, t);
            let b = queued_at(s, region, mode, c);
            let for_a = EventView::MatchFound(with_status(b, LobbyStatus::Ingame));
            let for_b = EventView::MatchFound(matched_requester(a, threshold));
            &&& a == find_lobby(s, id)->Some_0
            &&& a.lobby_id != b.lobby_id
            &&& forall|m: PlayerID| !(a.players.contains(m) && b.players.contains(m))
            &&& check_match_outcome(s, p, id, threshold).actions == Seq::new(
                a.players.len(),
                |i: int| ActionView::Send { endpoint: s.user_endpoints[a.players[i]], event: for_a },
            ) + Seq::new(
                b.players.len(),
                |i: int| ActionView::Send { endpoint: s.user_endpoints[b.players[i]], event: for_b },
            )
        }),
{
    let region = s.lobby_regions[id];
    let lobby = find_lobby(s, id)->Some_0;
    let mode = lobby.params.mode;
    let a = queued_at(s, region, mode, t);
    let b = queued_at(s, region, mode, c);
    assert(s.lobbies.contains_key((region, id)));
    match mode {
        GameMode::Casual => {
            lemma_casual_position(s, region, id);
            lemma_first_where(s.casual[region], has_id(id));
            assert(rightly_queued(s, region, GameMode::Casual, s.casual[region][t]));
            assert(rightly_queued(s, region, GameMode::Casual, s.casual[region][c]));
            assert(s.casual[region][t].lobby_id != s.casual[region][c].lobby_id);
        },
        GameMode::Competitive => {
            let q = s.competitive[region];
            lemma_competitive_position(s, region, id);
            lemma_first_where(q, rated_has_id(id));
            lemma_first_where(q, is_candidate(id, q[t].rating, threshold));
            assert(acceptable(id, q[t].rating, threshold, q[c]));
            assert(rightly_queued(s, region, GameMode::Competitive, q[t].lobby));
            assert(rightly_queued(s, region, GameMode::Competitive, q[c].lobby));
        },
    }
    assert(s.lobbies.contains_key((region, a.lobby_id)) && s.lobbies[(region, a.lobby_id)] == a);
    assert(s.lobbies.contains_key((region, b.lobby_id)) && s.lobbies[(region, b.lobby_id)] == b);
    assert forall|m: PlayerID| !(a.players.contains(m) && b.players.contains(m)) by {
        if a.players.contains(m) && b.players.contains(m) {
            assert(s.lobbies[(region, a.lobby_id)].players.contains(m));
            assert(s.lobbies[(region, b.lobby_id)].players.contains(m));
        }
    }
    assert forall|i: int| 0 <= i < a.players.len() implies s.user_endpoints.contains_key(#[trigger] a.players[i]) by {
        assert(s.lobbies[(region, a.lobby_id)].players.contains(a.players[i]));
    }
    assert forall|i: int| 0 <= i < b.players.len() implies s.user_endpoints.contains_key(#[trigger] b.players[i]) by {
        assert(s.lobbies[(region, b.lobby_id)].players.contains(b.players[i]));
    }
    lemma_fan_out_connected(s.user_endpoints, a.players, EventView::MatchFound(with_status(b, LobbyStatus::Ingame)));
    lemma_fan_out_connected(s.user_endpoints, b.players, EventView::MatchFound(matched_requester(a, threshold)));
}


/// Whatever a client asks, a consistent store is consistent again once the
/// request is handled.
pub proof fn law_requests_keep_consistency(
    s: StoreView,
    endpoint: EndpointID,
    event: ClientEvent,
    r: Result<Vec<Action>, GameSyncError>,
    after: StoreView,
)
    requires
        consistent(s),
        handled(s, endpoint, event, r, after),
    ensures
        consistent(after),
{
    if s.endpoint_users.contains_key(endpoint) {
        let p = s.endpoint_users[endpoint];
        match event {
            ClientEvent::CreateLobby(params) => {
                let id = choose|id: LobbyID|
                    crate::ident::is_random_uuid(id) && outcome_is(
                        r,
                        after,
                        #[trigger] create_lobby_outcome(s, p, params@, id),
                    );
                lemma_create_lobby_keeps(s, p, params@, id);
            },
            ClientEvent::JoinLobby(id) => {
                lemma_join_lobby_keeps(s, p, id);
            },
            ClientEvent::DeleteLobby(id) => {
                lemma_delete_lobby_keeps(s, p, id);
            },
            ClientEvent::LeaveLobby(id) => {
                lemma_leave_lobby_keeps(s, p, id);
            },
            ClientEvent::EditPlayer(profile) => {
                lemma_edit_player_keeps(s, p, profile);
            },
            ClientEvent::QueueLobby(id) => {
                lemma_queue_lobby_keeps(s, p, id);
            },
            ClientEvent::CheckMatch(id, threshold) => {
                lemma_check_match_keeps(
                    s,
                    p,
                    id,
                    match threshold {
                        Some(t) => t,
                        None => 0,
                    },
                );
            },
            ClientEvent::StopQueue(id) => {
                lemma_stop_queue_keeps(s, p, id);
            },
            ClientEvent::LeaveGameAsLobby(id) => {
                lemma_leave_game_keeps(s, p, id);
            },
            _ => {},
        }
    }
}


/// The index names a region for a lobby exactly where the bucket of that
/// region holds the lobby.
pub proof fn law_index_mirrors_buckets(s: StoreView, r: Region, l: LobbyID)
    requires
        consistent(s),
    ensures
        s.lobbies.contains_key((r, l)) <==> s.lobby_regions.get(l) == Some(r),
{
    if s.lobby_regions.get(l) == Some(r) {
        assert(s.lobby_regions.contains_key(l));
    }
}

/// After a disconnection nothing is left of the player: it is not
/// connected, not registered and a member of no lobby.
pub proof fn law_disconnect_forgets_player(s: StoreView, endpoint: EndpointID, r: Region, l: LobbyID)
    requires
        consistent(s),
        s.endpoint_users.contains_key(endpoint),
    ensures
        !disconnect_outcome(s, endpoint).state.endpoint_users.contains_key(endpoint),
        !disconnect_outcome(s, endpoint).state.user_endpoints.contains_key(s.endpoint_users[endpoint]),
        !disconnect_outcome(s, endpoint).state.players.contains_key(s.endpoint_users[endpoint]),
        disconnect_outcome(s, endpoint).state.lobbies.contains_key((r, l)) ==> !disconnect_outcome(
            s,
            endpoint,
        ).state.lobbies[(r, l)].players.contains(s.endpoint_users[endpoint]),
{
    let p = s.endpoint_users[endpoint];
    let t = disconnect_outcome(s, endpoint).state;
    lemma_disconnect_keeps(s, endpoint);
    assert(s.user_endpoints.contains_key(p));
    assert(s.players.contains_key(p));
    assert(!t.players.contains_key(p));
    if t.lobbies.contains_key((r, l)) && t.lobbies[(r, l)].players.contains(p) {
        assert(t.players.contains_key(p));
    }
}

/// The steps that the status of a lobby can take: it stays as it is, an
/// idle lobby starts queueing, a queueing lobby stops or finds a match, and
/// a lobby in game returns to idle.
pub open spec fn status_step(before: LobbyStatus, after: LobbyStatus) -> bool {
    ||| before == after
    ||| before == LobbyStatus::Idle && after == LobbyStatus::Queueing
    ||| before == LobbyStatus::Queueing && after == LobbyStatus::Idle
    ||| before == LobbyStatus::Queueing && after == LobbyStatus::Ingame
    ||| before == LobbyStatus::Ingame && after == LobbyStatus::Idle
}

/// Whether every lobby of `t` either was in `s` and has taken one step of
/// its status since, keeping its parameters and leader, or is new and
/// idle.
pub open spec fn lobbies_step(s: StoreView, t: StoreView) -> bool {
    forall|r: Region, l: LobbyID| #[trigger]
        t.lobbies.contains_key((r, l)) ==> if s.lobbies.contains_key((r, l)) {
            &&& status_step(s.lobbies[(r, l)].status, t.lobbies[(r, l)].status)
            &&& t.lobbies[(r, l)].params == s.lobbies[(r, l)].params
            &&& t.lobbies[(r, l)].leader == s.lobbies[(r, l)].leader
        } else {
            t.lobbies[(r, l)].status == LobbyStatus::Idle
        }
}

/// A match moves the two matched lobbies from queueing into the game and
/// leaves every other lobby as it is.
pub proof fn law_check_match_steps(s: StoreView, p: PlayerID, id: LobbyID, threshold: usize)
    requires
        consistent(s),
    ensures
        lobbies_step(s, check_match_outcome(s, p, id, threshold).state),
{
    let t = check_match_outcome(s, p, id, threshold).state;
    if t != s {
        let region = s.lobby_regions[id];
        let mode = s.lobbies[(region, id)].params.mode;
        let pair = match_pair(s, region, mode, id, threshold);
        let tp = pair->Some_0.0;
        let c = pair->Some_0.1;
        match mode {
            GameMode::Casual => {
                lemma_first_where(s.casual[region], has_id(id));
                assert(rightly_queued(s, region, GameMode::Casual, s.casual[region][tp]));
                assert(rightly_queued(s, region, GameMode::Casual, s.casual[region][c]));
            },
            GameMode::Competitive => {
                let q = s.competitive[region];
                lemma_first_where(q, rated_has_id(id));
                lemma_first_where(q, is_candidate(id, q[tp].rating, threshold));
                assert(acceptable(id, q[tp].rating, threshold, q[c]));
                assert(rightly_queued(s, region, GameMode::Competitive, q[tp].lobby));
                assert(rightly_queued(s, region, GameMode::Competitive, q[c].lobby));
            },
        }
    }
}

/// `CreateLobby` adds an idle lobby and leaves every other lobby as it is.
pub proof fn law_create_lobby_steps(s: StoreView, p: PlayerID, params: crate::lobby::LobbyParamsView, id: LobbyID)
    requires
        consistent(s),
    ensures
        lobbies_step(s, create_lobby_outcome(s, p, params, id).state),
{
}

/// `JoinLobby` changes the status of no lobby.
pub proof fn law_join_lobby_steps(s: StoreView, p: PlayerID, id: LobbyID)
    requires
        consistent(s),
    ensures
        lobbies_step(s, join_lobby_outcome(s, p, id).state),
{
}

/// `DeleteLobby` changes the status of no lobby that stays.
pub proof fn law_delete_lobby_steps(s: StoreView, p: PlayerID, id: LobbyID)
    requires
        consistent(s),
    ensures
        lobbies_step(s, delete_lobby_outcome(s, p, id).state),
{
}

/// `LeaveLobby` makes a queueing lobby idle, where it stays, and changes
/// the status of no other lobby.
pub proof fn law_leave_lobby_steps(s: StoreView, p: PlayerID, id: LobbyID)
    requires
        consistent(s),
    ensures
        lobbies_step(s, leave_lobby_outcome(s, p, id).state),
{
}

/// `QueueLobby` moves one lobby from idle to queueing.
pub proof fn law_queue_lobby_steps(s: StoreView, p: PlayerID, id: LobbyID)
    requires
        consistent(s),
    ensures
        lobbies_step(s, queue_lobby_outcome(s, p, id).state),
{
}

/// `StopQueue` moves one lobby from queueing to idle.
pub proof fn law_stop_queue_steps(s: StoreView, p: PlayerID, id: LobbyID)
    requires
        consistent(s),
    ensures
        lobbies_step(s, stop_queue_outcome(s, p, id).state),
{
}

/// `LeaveGameAsLobby` moves one lobby from the game to idle.
pub proof fn law_leave_game_steps(s: StoreView, p: PlayerID, id: LobbyID)
    requires
        consistent(s),
    ensures
        lobbies_step(s, leave_game_outcome(s, p, id).state),
{
}

/// Whatever a client asks, the status of every lobby takes at most one
/// step of the life cycle, lobbies keep their parameters and leader, and
/// new lobbies are idle.
pub proof fn law_requests_step_status(
    s: StoreView,
    endpoint: EndpointID,
    event: ClientEvent,
    r: Result<Vec<Action>, GameSyncError>,
    after: StoreView,
)
    requires
        consistent(s),
        handled(s, endpoint, event, r, after),
    ensures
        lobbies_step(s, after),
{
    if s.endpoint_users.contains_key(endpoint) {
        let p = s.endpoint_users[endpoint];
        match event {
            ClientEvent::CreateLobby(params) => {
                let id = choose|id: LobbyID|
                    crate::ident::is_random_uuid(id) && outcome_is(
                        r,
                        after,
                        #[trigger] create_lobby_outcome(s, p, params@, id),
                    );
                law_create_lobby_steps(s, p, params@, id);
            },
            ClientEvent::JoinLobby(id) => {
                law_join_lobby_steps(s, p, id);
            },
            ClientEvent::DeleteLobby(id) => {
                law_delete_lobby_steps(s, p, id);
            },
            ClientEvent::LeaveLobby(id) => {
                law_leave_lobby_steps(s, p, id);
            },
            ClientEvent::QueueLobby(id) => {
                law_queue_lobby_steps(s, p, id);
            },
            ClientEvent::CheckMatch(id, threshold) => {
                law_check_match_steps(
                    s,
                    p,
                    id,
                    match threshold {
                        Some(t) => t,
                        None => 0,
                    },
                );
            },
            ClientEvent::StopQueue(id) => {
                law_stop_queue_steps(s, p, id);
            },
            ClientEvent::LeaveGameAsLobby(id) => {
                law_leave_game_steps(s, p, id);
            },
            ClientEvent::EditPlayer(profile) => {
                assert(edit_player_outcome(s, p, profile).state.lobbies == s.lobbies);
            },
            _ => {},
        }
    }
}

/// A connection changes no lobby, and a disconnection lets every lobby
/// that stays take at most one step of the life cycle.
pub proof fn law_connections_step_status(s: StoreView, endpoint: EndpointID, id: PlayerID, pairs: Seq<(PlayerID, EndpointID)>)
    requires
        consistent(s),
    ensures
        connect_outcome(s, endpoint, id, pairs).state.lobbies == s.lobbies,
        lobbies_step(s, disconnect_outcome(s, endpoint).state),
{
}

} // verus!
