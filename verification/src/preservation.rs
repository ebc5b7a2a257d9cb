//! Every request keeps the store consistent: the proofs, one request at a
//! time.

use crate::invariants::{
    competitive_sorted, consistent, in_casual, in_competitive, index_mirrors_buckets,
    membership_mirrored, queues_mirror_status, rightly_queued,
};
use crate::lobby::{
    GameMode, LobbyID, LobbyParamsView, LobbyStatus, LobbyView, Player, PlayerID, Region,
};
use crate::model::{
    check_match_outcome, connect_outcome, create_lobby_outcome, delete_lobby_outcome, departed,
    dequeued, detached, disconnect_outcome, edit_player_outcome, finalized, find_lobby, forgotten,
    join_lobby_outcome, leave_game_outcome, leave_lobby_outcome, match_pair, matched_requester,
    queue_lobby_outcome, queued_at, stop_queue_outcome, unqueued_pair, with_status, without,
};
use crate::queue::{
    acceptable, first_where, has_id, is_candidate, lemma_first_where, lemma_ordered_insert_sorted, lemma_remove_keeps_sorted,
    rated_above, rated_has_id, sorted_by_rating, RatedView,
};
use crate::store::{
    average_rating, lemma_mean_rating_bound, lemma_rating_sum_agrees, rating_of, EndpointID,
    StoreView,
};
use vstd::prelude::*;

verus! {

/// Two stores that hold the same members for a lobby, with the same
/// ratings, give it the same average rating.
pub proof fn lemma_average_agrees(s: StoreView, t: StoreView, r: Region, l: LobbyID)
    requires
        s.lobbies.contains_key((r, l)) == t.lobbies.contains_key((r, l)),
        s.lobbies.contains_key((r, l)) ==> s.lobbies[(r, l)].players == t.lobbies[(r, l)].players,
        s.lobbies.contains_key((r, l)) ==> forall|i: int|
            0 <= i < s.lobbies[(r, l)].players.len() ==> rating_of(s.players, #[trigger] s.lobbies[(r, l)].players[i])
                == rating_of(t.players, s.lobbies[(r, l)].players[i]),
    ensures
        average_rating(s, r, l) == average_rating(t, r, l),
{
    if s.lobbies.contains_key((r, l)) {
        lemma_rating_sum_agrees(s.players, t.players, s.lobbies[(r, l)].players);
    }
}

/// Where the competitive queues stay as they are, and every queued lobby
/// keeps its members and they their ratings, the queues stay ordered by
/// the current average ratings.
pub proof fn lemma_ratings_kept(s: StoreView, t: StoreView)
    requires
        consistent(s),
        t.competitive == s.competitive,
        forall|r: Region, l: LobbyID|
            #![trigger s.lobbies.contains_key((r, l))]
            s.lobbies.contains_key((r, l)) && s.lobbies[(r, l)].status == LobbyStatus::Queueing ==> {
                &&& t.lobbies.contains_key((r, l))
                &&& t.lobbies[(r, l)].players == s.lobbies[(r, l)].players
                &&& forall|p: PlayerID| #[trigger]
                    s.lobbies[(r, l)].players.contains(p) ==> rating_of(t.players, p) == rating_of(s.players, p)
            },
    ensures
        competitive_sorted(t),
{
    assert forall|r: Region, i: int| 0 <= i < t.competitive[r].len() implies (#[trigger] t.competitive[r][i]).rating
        == average_rating(t, r, t.competitive[r][i].lobby.lobby_id) by {
        let e = s.competitive[r][i];
        assert(rightly_queued(s, r, GameMode::Competitive, e.lobby));
        let l = e.lobby.lobby_id;
        assert(s.lobbies.contains_key((r, l)));
        let members = s.lobbies[(r, l)].players;
        assert forall|k: int| 0 <= k < members.len() implies rating_of(s.players, #[trigger] members[k]) == rating_of(
            t.players,
            members[k],
        ) by {
            assert(members.contains(members[k]));
        }
        lemma_average_agrees(s, t, r, l);
    }
}

/// What a sequence contains after an element was appended.
pub proof fn lemma_push_contains<A>(q: Seq<A>, x: A)
    ensures
        forall|y: A| #[trigger] q.push(x).contains(y) <==> (q.contains(y) || y == x),
        !q.contains(x) && q.no_duplicates() ==> q.push(x).no_duplicates(),
{
    assert forall|y: A| #[trigger] q.push(x).contains(y) <==> (q.contains(y) || y == x) by {
        if q.contains(y) {
            let i = choose|i: int| 0 <= i < q.len() && q[i] == y;
            assert(q.push(x)[i] == y);
        }
        if y == x {
            assert(q.push(x)[q.len() as int] == y);
        }
        if q.push(x).contains(y) {
            let i = choose|i: int| 0 <= i < q.push(x).len() && q.push(x)[i] == y;
            if i < q.len() {
                assert(q[i] == y);
            }
        }
    }
    if !q.contains(x) && q.no_duplicates() {
        assert forall|i: int, j: int| 0 <= i < q.push(x).len() && 0 <= j < q.push(x).len() && i != j implies q.push(
            x,
        )[i] != q.push(x)[j] by {
            if i < q.len() && j < q.len() {
            } else if i < q.len() {
                assert(q.contains(q[i]));
            } else {
                assert(q.contains(q[j]));
            }
        }
    }
}

/// A connection keeps the store consistent.
pub proof fn lemma_connect_keeps(s: StoreView, endpoint: EndpointID, id: PlayerID, pairs: Seq<(PlayerID, EndpointID)>)
    requires
        consistent(s),
    ensures
        consistent(connect_outcome(s, endpoint, id, pairs).state),
{
    let t = connect_outcome(s, endpoint, id, pairs).state;
    if t != s {
        lemma_ratings_kept(s, t);
    }
}


/// `EditPlayer` keeps the store consistent.
pub proof fn lemma_edit_player_keeps(s: StoreView, p: PlayerID, profile: Player)
    requires
        consistent(s),
    ensures
        consistent(edit_player_outcome(s, p, profile).state),
{
    let t = edit_player_outcome(s, p, profile).state;
    if t != s {
        lemma_ratings_kept(s, t);
    }
}

/// `CreateLobby` keeps the store consistent.
pub proof fn lemma_create_lobby_keeps(s: StoreView, p: PlayerID, params: LobbyParamsView, id: LobbyID)
    requires
        consistent(s),
    ensures
        consistent(create_lobby_outcome(s, p, params, id).state),
{
    let t = create_lobby_outcome(s, p, params, id).state;
    if t != s {
        let members = seq![p];
        assert(members[0] == p);
        assert(t.lobbies[(params.region, id)].players == members);
        lemma_ratings_kept(s, t);
        assert(index_mirrors_buckets(t));
        assert forall|q: PlayerID| #[trigger] t.players.contains_key(q) && t.players[q].1 is Some implies find_lobby(
            t,
            t.players[q].1->Some_0,
        ) is Some && find_lobby(t, t.players[q].1->Some_0)->Some_0.players.contains(q) by {
            if q != p {
                assert(s.players.contains_key(q));
            }
        }
    }
}

/// `JoinLobby` keeps the store consistent.
pub proof fn lemma_join_lobby_keeps(s: StoreView, p: PlayerID, id: LobbyID)
    requires
        consistent(s),
    ensures
        consistent(join_lobby_outcome(s, p, id).state),
{
    let t = join_lobby_outcome(s, p, id).state;
    if t != s {
        let region = s.lobby_regions[id];
        let old_members = s.lobbies[(region, id)].players;
        lemma_push_contains(old_members, p);
        lemma_ratings_kept(s, t);
        assert(queues_mirror_status(t));
        assert forall|q: PlayerID| #[trigger] t.players.contains_key(q) && t.players[q].1 is Some implies find_lobby(
            t,
            t.players[q].1->Some_0,
        ) is Some && find_lobby(t, t.players[q].1->Some_0)->Some_0.players.contains(q) by {
            if q != p {
                assert(s.players.contains_key(q));
            }
        }
        assert(membership_mirrored(t));
    }
}

/// `LeaveGameAsLobby` keeps the store consistent.
pub proof fn lemma_leave_game_keeps(s: StoreView, p: PlayerID, id: LobbyID)
    requires
        consistent(s),
    ensures
        consistent(leave_game_outcome(s, p, id).state),
{
    let t = leave_game_outcome(s, p, id).state;
    if t != s {
        lemma_ratings_kept(s, t);
    }
}


/// Whether two stores hold the same lobbies, but perhaps for the one under
/// `id` in `region`.
pub open spec fn same_lobbies_but(s: StoreView, t: StoreView, region: Region, id: LobbyID) -> bool {
    forall|r: Region, l: LobbyID|
        #![trigger t.lobbies.contains_key((r, l))]
        #![trigger s.lobbies.contains_key((r, l))]
        (r, l) != (region, id) ==> t.lobbies.contains_key((r, l)) == s.lobbies.contains_key((r, l)) && t.lobbies[(
            r,
            l,
        )] == s.lobbies[(r, l)]
}

/// Taking an entry out of a casual queue keeps the queues right, where the
/// lobby of the entry no longer is queueing and nothing else has changed.
pub proof fn lemma_casual_removed(s: StoreView, t: StoreView, region: Region, i: int)
    requires
        queues_mirror_status(s),
        0 <= i < s.casual[region].len(),
        t.casual == s.casual.insert(region, s.casual[region].remove(i)),
        t.competitive == s.competitive,
        same_lobbies_but(s, t, region, s.casual[region][i].lobby_id),
        t.lobbies.contains_key((region, s.casual[region][i].lobby_id)) ==> t.lobbies[(
            region,
            s.casual[region][i].lobby_id,
        )].status != LobbyStatus::Queueing,
    ensures
        queues_mirror_status(t),
{
    let q = s.casual[region];
    let id = q[i].lobby_id;
    let q2 = q.remove(i);
    assert(rightly_queued(s, region, GameMode::Casual, q[i]));
    assert forall|r: Region, k: int| 0 <= k < t.casual[r].len() implies rightly_queued(
        t,
        r,
        GameMode::Casual,
        #[trigger] t.casual[r][k],
    ) by {
        if r == region {
            let k0 = if k < i { k } else { k + 1 };
            assert(q2[k] == q[k0]);
            assert(rightly_queued(s, r, GameMode::Casual, q[k0]));
            assert(q[k0].lobby_id != q[i].lobby_id);
        } else {
            assert(rightly_queued(s, r, GameMode::Casual, s.casual[r][k]));
        }
    }
    assert forall|r: Region, a: int, b: int| 0 <= a < b < t.casual[r].len() implies (#[trigger] t.casual[r][a]).lobby_id
        != (#[trigger] t.casual[r][b]).lobby_id by {
        if r == region {
            let a0 = if a < i { a } else { a + 1 };
            let b0 = if b < i { b } else { b + 1 };
            assert(q2[a] == q[a0]);
            assert(q2[b] == q[b0]);
            assert(q[a0].lobby_id != q[b0].lobby_id);
        } else {
            assert(s.casual[r][a].lobby_id != s.casual[r][b].lobby_id);
        }
    }
    assert forall|r: Region, k: int| 0 <= k < t.competitive[r].len() implies rightly_queued(
        t,
        r,
        GameMode::Competitive,
        (#[trigger] t.competitive[r][k]).lobby,
    ) by {
        assert(rightly_queued(s, r, GameMode::Competitive, s.competitive[r][k].lobby));
    }
    assert forall|r: Region, l: LobbyID| #[trigger]
        t.lobbies.contains_key((r, l)) && t.lobbies[(r, l)].status == LobbyStatus::Queueing implies (match t.lobbies[(
        r,
        l,
    )].params.mode {
        GameMode::Casual => in_casual(t, r, l),
        GameMode::Competitive => in_competitive(t, r, l),
    }) by {
        assert((r, l) != (region, id));
        assert(s.lobbies.contains_key((r, l)));
        match t.lobbies[(r, l)].params.mode {
            GameMode::Casual => {
                assert(in_casual(s, r, l));
                let k0 = choose|k0: int| 0 <= k0 < s.casual[r].len() && (#[trigger] s.casual[r][k0]).lobby_id == l;
                if r == region {
                    assert(k0 != i);
                    let k = if k0 < i { k0 } else { k0 - 1 };
                    assert(q2[k] == q[k0]);
                    assert(t.casual[r][k].lobby_id == l);
                } else {
                    assert(t.casual[r][k0].lobby_id == l);
                }
            },
            GameMode::Competitive => {
                assert(in_competitive(s, r, l));
                let k0 = choose|k0: int|
                    0 <= k0 < s.competitive[r].len() && (#[trigger] s.competitive[r][k0]).lobby.lobby_id == l;
                assert(t.competitive[r][k0].lobby.lobby_id == l);
            },
        }
    }
}

/// Taking an entry out of a competitive queue keeps the queues right,
/// where the lobby of the entry no longer is queueing and nothing else has
/// changed.
pub proof fn lemma_competitive_removed(s: StoreView, t: StoreView, region: Region, i: int)
    requires
        queues_mirror_status(s),
        0 <= i < s.competitive[region].len(),
        t.competitive == s.competitive.insert(region, s.competitive[region].remove(i)),
        t.casual == s.casual,
        same_lobbies_but(s, t, region, s.competitive[region][i].lobby.lobby_id),
        t.lobbies.contains_key((region, s.competitive[region][i].lobby.lobby_id)) ==> t.lobbies[(
            region,
            s.competitive[region][i].lobby.lobby_id,
        )].status != LobbyStatus::Queueing,
    ensures
        queues_mirror_status(t),
{
    let q = s.competitive[region];
    let id = q[i].lobby.lobby_id;
    let q2 = q.remove(i);
    assert(rightly_queued(s, region, GameMode::Competitive, q[i].lobby));
    assert forall|r: Region, k: int| 0 <= k < t.competitive[r].len() implies rightly_queued(
        t,
        r,
        GameMode::Competitive,
        (#[trigger] t.competitive[r][k]).lobby,
    ) by {
        if r == region {
            let k0 = if k < i { k } else { k + 1 };
            assert(q2[k] == q[k0]);
            assert(rightly_queued(s, r, GameMode::Competitive, q[k0].lobby));
            assert(q[k0].lobby.lobby_id != q[i].lobby.lobby_id);
        } else {
            assert(rightly_queued(s, r, GameMode::Competitive, s.competitive[r][k].lobby));
        }
    }
    assert forall|r: Region, a: int, b: int| 0 <= a < b < t.competitive[r].len() implies (
    #[trigger] t.competitive[r][a]).lobby.lobby_id != (#[trigger] t.competitive[r][b]).lobby.lobby_id by {
        if r == region {
            let a0 = if a < i { a } else { a + 1 };
            let b0 = if b < i { b } else { b + 1 };
            assert(q2[a] == q[a0]);
            assert(q2[b] == q[b0]);
            assert(q[a0].lobby.lobby_id != q[b0].lobby.lobby_id);
        } else {
            assert(s.competitive[r][a].lobby.lobby_id != s.competitive[r][b].lobby.lobby_id);
        }
    }
    assert forall|r: Region, k: int| 0 <= k < t.casual[r].len() implies rightly_queued(
        t,
        r,
        GameMode::Casual,
        #[trigger] t.casual[r][k],
    ) by {
        assert(rightly_queued(s, r, GameMode::Casual, s.casual[r][k]));
    }
    assert forall|r: Region, l: LobbyID| #[trigger]
        t.lobbies.contains_key((r, l)) && t.lobbies[(r, l)].status == LobbyStatus::Queueing implies (match t.lobbies[(
        r,
        l,
    )].params.mode {
        GameMode::Casual => in_casual(t, r, l),
        GameMode::Competitive => in_competitive(t, r, l),
    }) by {
        assert((r, l) != (region, id));
        assert(s.lobbies.contains_key((r, l)));
        match t.lobbies[(r, l)].params.mode {
            GameMode::Competitive => {
                assert(in_competitive(s, r, l));
                let k0 = choose|k0: int|
                    0 <= k0 < s.competitive[r].len() && (#[trigger] s.competitive[r][k0]).lobby.lobby_id == l;
                if r == region {
                    assert(k0 != i);
                    let k = if k0 < i { k0 } else { k0 - 1 };
                    assert(q2[k] == q[k0]);
                    assert(t.competitive[r][k].lobby.lobby_id == l);
                } else {
                    assert(t.competitive[r][k0].lobby.lobby_id == l);
                }
            },
            GameMode::Casual => {
                assert(in_casual(s, r, l));
                let k0 = choose|k0: int| 0 <= k0 < s.casual[r].len() && (#[trigger] s.casual[r][k0]).lobby_id == l;
                assert(t.casual[r][k0].lobby_id == l);
            },
        }
    }
}


/// Whether the members of the lobbies that are queueing in `t` have the
/// ratings in `t` that they had in `s`.
pub open spec fn ratings_of_queued_kept(s: StoreView, t: StoreView) -> bool {
    forall|r: Region, l: LobbyID, p: PlayerID|
        t.lobbies.contains_key((r, l)) && t.lobbies[(r, l)].status == LobbyStatus::Queueing
            && #[trigger] t.lobbies[(r, l)].players.contains(p) ==> rating_of(t.players, p) == rating_of(s.players, p)
}

/// Whether a queue holds an entry.
pub open spec fn holds_entry(q: Seq<RatedView>, e: RatedView) -> bool {
    exists|j: int| 0 <= j < q.len() && #[trigger] q[j] == e
}

/// Where the entries of the competitive queues of `t` are entries of those
/// of `s`, still in order, and the members of queueing lobbies have kept
/// their ratings, the queues of `t` are ordered by the current average
/// ratings.
pub proof fn lemma_ratings_moved(s: StoreView, t: StoreView)
    requires
        competitive_sorted(s),
        queues_mirror_status(s),
        queues_mirror_status(t),
        forall|r: Region| sorted_by_rating(#[trigger] t.competitive[r]),
        forall|r: Region, k: int|
            0 <= k < t.competitive[r].len() ==> holds_entry(s.competitive[r], #[trigger] t.competitive[r][k]),
        ratings_of_queued_kept(s, t),
    ensures
        competitive_sorted(t),
{
    assert forall|r: Region, k: int| 0 <= k < t.competitive[r].len() implies (#[trigger] t.competitive[r][k]).rating
        == average_rating(t, r, t.competitive[r][k].lobby.lobby_id) by {
        let e = t.competitive[r][k];
        assert(holds_entry(s.competitive[r], e));
        let j = choose|j: int| 0 <= j < s.competitive[r].len() && #[trigger] s.competitive[r][j] == e;
        assert(rightly_queued(s, r, GameMode::Competitive, s.competitive[r][j].lobby));
        assert(rightly_queued(t, r, GameMode::Competitive, e.lobby));
        let l = e.lobby.lobby_id;
        let members = t.lobbies[(r, l)].players;
        assert forall|k: int| 0 <= k < members.len() implies rating_of(s.players, #[trigger] members[k]) == rating_of(
            t.players,
            members[k],
        ) by {
            assert(members.contains(members[k]));
        }
        lemma_average_agrees(s, t, r, l);
    }
}

/// A queueing casual lobby is found in the casual queue of its region.
pub proof fn lemma_casual_position(s: StoreView, region: Region, id: LobbyID)
    requires
        queues_mirror_status(s),
        s.lobbies.contains_key((region, id)),
        s.lobbies[(region, id)].status == LobbyStatus::Queueing,
        s.lobbies[(region, id)].params.mode == GameMode::Casual,
    ensures
        0 <= first_where(s.casual[region], has_id(id)) < s.casual[region].len(),
        s.casual[region][first_where(s.casual[region], has_id(id))] == s.lobbies[(region, id)],
{
    let q = s.casual[region];
    lemma_first_where(q, has_id(id));
    assert(in_casual(s, region, id));
    let k = choose|k: int| 0 <= k < q.len() && (#[trigger] q[k]).lobby_id == id;
    assert(has_id(id)(q[k]));
    let i = first_where(q, has_id(id));
    assert(rightly_queued(s, region, GameMode::Casual, q[i]));
}

/// A queueing competitive lobby is found in the competitive queue of its
/// region.
pub proof fn lemma_competitive_position(s: StoreView, region: Region, id: LobbyID)
    requires
        queues_mirror_status(s),
        s.lobbies.contains_key((region, id)),
        s.lobbies[(region, id)].status == LobbyStatus::Queueing,
        s.lobbies[(region, id)].params.mode == GameMode::Competitive,
    ensures
        0 <= first_where(s.competitive[region], rated_has_id(id)) < s.competitive[region].len(),
        s.competitive[region][first_where(s.competitive[region], rated_has_id(id))].lobby == s.lobbies[(region, id)],
{
    let q = s.competitive[region];
    lemma_first_where(q, rated_has_id(id));
    assert(in_competitive(s, region, id));
    let k = choose|k: int| 0 <= k < q.len() && (#[trigger] q[k]).lobby.lobby_id == id;
    assert(rated_has_id(id)(q[k]));
    let i = first_where(q, rated_has_id(id));
    assert(rightly_queued(s, region, GameMode::Competitive, q[i].lobby));
}

/// Taking a queueing casual lobby out of its queue keeps the queues right
/// and ordered, where the lobby no longer is queueing afterwards and no
/// other lobby and no rating has changed.
pub proof fn lemma_dequeue_casual_keeps(s: StoreView, t: StoreView, region: Region, id: LobbyID)
    requires
        queues_mirror_status(s),
        competitive_sorted(s),
        s.lobbies.contains_key((region, id)),
        s.lobbies[(region, id)].status == LobbyStatus::Queueing,
        s.lobbies[(region, id)].params.mode == GameMode::Casual,
        t.casual == dequeued(s, region, GameMode::Casual, id).casual,
        t.competitive == s.competitive,
        same_lobbies_but(s, t, region, id),
        t.lobbies.contains_key((region, id)) ==> t.lobbies[(region, id)].status != LobbyStatus::Queueing,
        ratings_of_queued_kept(s, t),
    ensures
        queues_mirror_status(t),
        competitive_sorted(t),
{
    lemma_casual_position(s, region, id);
    let i = first_where(s.casual[region], has_id(id));
    lemma_casual_removed(s, t, region, i);
    assert forall|r: Region, k: int| 0 <= k < t.competitive[r].len() implies holds_entry(
        s.competitive[r],
        #[trigger] t.competitive[r][k],
    ) by {
        assert(s.competitive[r][k] == t.competitive[r][k]);
    }
    assert forall|r: Region| sorted_by_rating(#[trigger] t.competitive[r]) by {
        assert(sorted_by_rating(s.competitive[r]));
    }
    lemma_ratings_moved(s, t);
}

/// Taking a queueing competitive lobby out of its queue keeps the queues
/// right and ordered, where the lobby no longer is queueing afterwards and
/// no other lobby and no rating has changed.
#[verifier::rlimit(60)]
pub proof fn lemma_dequeue_competitive_keeps(s: StoreView, t: StoreView, region: Region, id: LobbyID)
    requires
        queues_mirror_status(s),
        competitive_sorted(s),
        s.lobbies.contains_key((region, id)),
        s.lobbies[(region, id)].status == LobbyStatus::Queueing,
        s.lobbies[(region, id)].params.mode == GameMode::Competitive,
        t.casual == s.casual,
        t.competitive == dequeued(s, region, GameMode::Competitive, id).competitive,
        same_lobbies_but(s, t, region, id),
        t.lobbies.contains_key((region, id)) ==> t.lobbies[(region, id)].status != LobbyStatus::Queueing,
        ratings_of_queued_kept(s, t),
    ensures
        queues_mirror_status(t),
        competitive_sorted(t),
{
    lemma_competitive_position(s, region, id);
    let q = s.competitive[region];
    let i = first_where(q, rated_has_id(id));
    lemma_competitive_removed(s, t, region, i);
    assert(sorted_by_rating(q));
    lemma_remove_keeps_sorted(q, i);
    assert forall|r: Region| sorted_by_rating(#[trigger] t.competitive[r]) by {
        if r != region {
            assert(sorted_by_rating(s.competitive[r]));
        }
    }
    assert forall|r: Region, k: int| 0 <= k < t.competitive[r].len() implies holds_entry(
        s.competitive[r],
        #[trigger] t.competitive[r][k],
    ) by {
        if r == region {
            let k0 = if k < i { k } else { k + 1 };
            assert(s.competitive[r][k0] == t.competitive[r][k]);
        } else {
            assert(s.competitive[r][k] == t.competitive[r][k]);
        }
    }
    lemma_ratings_moved(s, t);
}

/// Taking a queueing lobby out of its queue keeps the queues right and
/// ordered, where the lobby no longer is queueing afterwards and no other
/// lobby and no rating has changed.
pub proof fn lemma_dequeue_keeps(s: StoreView, t: StoreView, region: Region, id: LobbyID)
    requires
        queues_mirror_status(s),
        competitive_sorted(s),
        s.lobbies.contains_key((region, id)),
        s.lobbies[(region, id)].status == LobbyStatus::Queueing,
        t.casual == dequeued(s, region, s.lobbies[(region, id)].params.mode, id).casual,
        t.competitive == dequeued(s, region, s.lobbies[(region, id)].params.mode, id).competitive,
        same_lobbies_but(s, t, region, id),
        t.lobbies.contains_key((region, id)) ==> t.lobbies[(region, id)].status != LobbyStatus::Queueing,
        ratings_of_queued_kept(s, t),
    ensures
        queues_mirror_status(t),
        competitive_sorted(t),
{
    match s.lobbies[(region, id)].params.mode {
        GameMode::Casual => {
            lemma_dequeue_casual_keeps(s, t, region, id);
        },
        GameMode::Competitive => {
            lemma_dequeue_competitive_keeps(s, t, region, id);
        },
    }
}

/// `StopQueue` keeps the store consistent.
pub proof fn lemma_stop_queue_keeps(s: StoreView, p: PlayerID, id: LobbyID)
    requires
        consistent(s),
    ensures
        consistent(stop_queue_outcome(s, p, id).state),
{
    let t = stop_queue_outcome(s, p, id).state;
    if t != s {
        let region = s.lobby_regions[id];
        lemma_dequeue_keeps(s, t, region, id);
        assert(membership_mirrored(t));
    }
}


/// What the list of members without a player holds.
pub proof fn lemma_without(m: Seq<PlayerID>, p: PlayerID)
    ensures
        forall|q: PlayerID| #[trigger] without(m, p).contains(q) <==> (m.contains(q) && q != p),
        m.no_duplicates() ==> without(m, p).no_duplicates(),
        without(m, p).len() <= m.len(),
        m.len() > 0 && m[0] != p ==> without(m, p).len() > 0 && without(m, p)[0] == m[0],
        !m.contains(p) ==> without(m, p) == m,
    decreases m.len(),
{
    if m.len() > 0 {
        let rest = m.drop_last();
        let last = m.last();
        lemma_without(rest, p);
        lemma_push_contains(rest, last);
        lemma_push_contains(without(rest, p), last);
        assert(rest.push(last) =~= m);
        if rest.len() > 0 {
            assert(rest[0] == m[0]);
        }
        if m.no_duplicates() {
            assert(rest.no_duplicates());
            assert(!rest.contains(last)) by {
                if rest.contains(last) {
                    let i = choose|i: int| 0 <= i < rest.len() && rest[i] == last;
                    assert(m[i] == m[m.len() - 1]);
                }
            }
        }
        if !m.contains(p) {
            assert(!rest.contains(p));
            assert(last != p);
        }
    }
}

/// A change to a lobby that is not queueing, before or after, keeps the
/// queues right and ordered, where no other lobby and no rating of a
/// member of a queueing lobby has changed.
pub proof fn lemma_idle_change_keeps(s: StoreView, t: StoreView, region: Region, id: LobbyID)
    requires
        queues_mirror_status(s),
        competitive_sorted(s),
        t.casual == s.casual,
        t.competitive == s.competitive,
        same_lobbies_but(s, t, region, id),
        s.lobbies.contains_key((region, id)) ==> s.lobbies[(region, id)].status != LobbyStatus::Queueing,
        t.lobbies.contains_key((region, id)) ==> t.lobbies[(region, id)].status != LobbyStatus::Queueing,
        ratings_of_queued_kept(s, t),
    ensures
        queues_mirror_status(t),
        competitive_sorted(t),
{
    assert forall|r: Region, k: int| 0 <= k < t.casual[r].len() implies rightly_queued(
        t,
        r,
        GameMode::Casual,
        #[trigger] t.casual[r][k],
    ) by {
        assert(rightly_queued(s, r, GameMode::Casual, s.casual[r][k]));
    }
    assert forall|r: Region, k: int| 0 <= k < t.competitive[r].len() implies rightly_queued(
        t,
        r,
        GameMode::Competitive,
        (#[trigger] t.competitive[r][k]).lobby,
    ) by {
        assert(rightly_queued(s, r, GameMode::Competitive, s.competitive[r][k].lobby));
    }
    assert forall|r: Region, l: LobbyID| #[trigger]
        t.lobbies.contains_key((r, l)) && t.lobbies[(r, l)].status == LobbyStatus::Queueing implies (match t.lobbies[(
        r,
        l,
    )].params.mode {
        GameMode::Casual => in_casual(t, r, l),
        GameMode::Competitive => in_competitive(t, r, l),
    }) by {
        assert((r, l) != (region, id));
        assert(s.lobbies.contains_key((r, l)));
        match t.lobbies[(r, l)].params.mode {
            GameMode::Casual => {
                assert(in_casual(s, r, l));
                let k0 = choose|k0: int| 0 <= k0 < s.casual[r].len() && (#[trigger] s.casual[r][k0]).lobby_id == l;
                assert(t.casual[r][k0].lobby_id == l);
            },
            GameMode::Competitive => {
                assert(in_competitive(s, r, l));
                let k0 = choose|k0: int|
                    0 <= k0 < s.competitive[r].len() && (#[trigger] s.competitive[r][k0]).lobby.lobby_id == l;
                assert(t.competitive[r][k0].lobby.lobby_id == l);
            },
        }
    }
    assert(queues_mirror_status(t));
    assert forall|r: Region, k: int| 0 <= k < t.competitive[r].len() implies holds_entry(
        s.competitive[r],
        #[trigger] t.competitive[r][k],
    ) by {
        assert(s.competitive[r][k] == t.competitive[r][k]);
    }
    assert forall|r: Region| sorted_by_rating(#[trigger] t.competitive[r]) by {
        assert(sorted_by_rating(s.competitive[r]));
    }
    lemma_ratings_moved(s, t);
}

/// The going of a member from its lobby keeps the store consistent, and
/// leaves the member in no lobby.
pub proof fn lemma_departed_keeps(s: StoreView, p: PlayerID, id: LobbyID)
    requires
        consistent(s),
        find_lobby(s, id) is Some,
        find_lobby(s, id)->Some_0.players.contains(p),
    ensures
        consistent(departed(s, p, id, find_lobby(s, id)->Some_0)),
        departed(s, p, id, find_lobby(s, id)->Some_0).players.contains_key(p),
        departed(s, p, id, find_lobby(s, id)->Some_0).players[p].1 is None,
        departed(s, p, id, find_lobby(s, id)->Some_0).endpoint_users == s.endpoint_users,
{
    let lobby = find_lobby(s, id)->Some_0;
    let region = s.lobby_regions[id];
    let t = departed(s, p, id, lobby);
    lemma_without(lobby.players, p);
    assert(s.lobbies.contains_key((region, id)));
    assert(ratings_of_queued_kept(s, t));
    if lobby.status == LobbyStatus::Queueing {
        lemma_dequeue_keeps(s, t, region, id);
    } else {
        lemma_idle_change_keeps(s, t, region, id);
    }
    assert forall|q: PlayerID| #[trigger] t.players.contains_key(q) && t.players[q].1 is Some implies find_lobby(
        t,
        t.players[q].1->Some_0,
    ) is Some && find_lobby(t, t.players[q].1->Some_0)->Some_0.players.contains(q) by {
        assert(s.players.contains_key(q));
        assert(s.players[q].1 == t.players[q].1);
    }
    assert(membership_mirrored(t));
}

/// `LeaveLobby` keeps the store consistent.
pub proof fn lemma_leave_lobby_keeps(s: StoreView, p: PlayerID, id: LobbyID)
    requires
        consistent(s),
    ensures
        consistent(leave_lobby_outcome(s, p, id).state),
{
    if leave_lobby_outcome(s, p, id).state != s {
        lemma_departed_keeps(s, p, id);
    }
}


/// `DeleteLobby` keeps the store consistent.
pub proof fn lemma_delete_lobby_keeps(s: StoreView, p: PlayerID, id: LobbyID)
    requires
        consistent(s),
    ensures
        consistent(delete_lobby_outcome(s, p, id).state),
{
    let t = delete_lobby_outcome(s, p, id).state;
    if t != s {
        let region = s.lobby_regions[id];
        assert(s.lobbies.contains_key((region, id)));
        assert(ratings_of_queued_kept(s, t));
        lemma_idle_change_keeps(s, t, region, id);
        assert forall|q: PlayerID| #[trigger] t.players.contains_key(q) && t.players[q].1 is Some implies find_lobby(
            t,
            t.players[q].1->Some_0,
        ) is Some && find_lobby(t, t.players[q].1->Some_0)->Some_0.players.contains(q) by {
            assert(s.players.contains_key(q));
            assert(s.players[q].1 == t.players[q].1);
        }
        assert(membership_mirrored(t));
    }
}

/// Forgetting a connected player that is in no lobby, and unbinding its
/// endpoint, keeps the store consistent.
pub proof fn lemma_forget_keeps(s: StoreView, p: PlayerID, endpoint: EndpointID)
    requires
        consistent(s),
        s.endpoint_users.get(endpoint) == Some(p),
        s.players.contains_key(p) ==> s.players[p].1 is None,
    ensures
        consistent(detached(forgotten(s, p), endpoint)),
{
    let t = detached(forgotten(s, p), endpoint);
    assert(s.user_endpoints.contains_key(p));
    assert(s.players.contains_key(p));
    assert forall|r: Region, l: LobbyID, q: PlayerID|
        t.lobbies.contains_key((r, l)) && #[trigger] t.lobbies[(r, l)].players.contains(q) implies q != p by {
        assert(s.lobbies[(r, l)].players.contains(q));
    }
    assert forall|q: PlayerID| #[trigger] t.players.contains_key(q) && t.players[q].1 is Some implies find_lobby(
        t,
        t.players[q].1->Some_0,
    ) is Some && find_lobby(t, t.players[q].1->Some_0)->Some_0.players.contains(q) by {
        assert(s.players.contains_key(q));
    }
    assert(membership_mirrored(t));
    assert(queues_mirror_status(t));
    lemma_ratings_kept(s, t);
}

/// A disconnection keeps the store consistent.
pub proof fn lemma_disconnect_keeps(s: StoreView, endpoint: EndpointID)
    requires
        consistent(s),
    ensures
        consistent(disconnect_outcome(s, endpoint).state),
{
    match s.endpoint_users.get(endpoint) {
        None => {},
        Some(p) => {
            assert(s.user_endpoints.contains_key(p));
            assert(s.players.contains_key(p));
            if s.players[p].1 is Some {
                let id = s.players[p].1->Some_0;
                assert(find_lobby(s, id) is Some);
                lemma_departed_keeps(s, p, id);
                let u = departed(s, p, id, find_lobby(s, id)->Some_0);
                lemma_forget_keeps(u, p, endpoint);
            } else {
                lemma_forget_keeps(s, p, endpoint);
            }
        },
    }
}


/// Queueing a full idle casual lobby keeps the queues right and ordered.
pub proof fn lemma_queue_casual_keeps(s: StoreView, t: StoreView, region: Region, id: LobbyID)
    requires
        consistent(s),
        s.lobbies.contains_key((region, id)),
        s.lobbies[(region, id)].status == LobbyStatus::Idle,
        s.lobbies[(region, id)].params.mode == GameMode::Casual,
        t == queue_lobby_outcome(s, s.lobbies[(region, id)].leader, id).state,
        t != s,
        region == s.lobby_regions[id],
    ensures
        queues_mirror_status(t),
        competitive_sorted(t),
{
    let lobby = s.lobbies[(region, id)];
    let queued = with_status(lobby, LobbyStatus::Queueing);
    assert(lobby.lobby_id == id);
    // no entry of a queue is the lobby that is queued now
    assert forall|r: Region, k: int| 0 <= k < s.casual[r].len() implies rightly_queued(
        t,
        r,
        GameMode::Casual,
        #[trigger] s.casual[r][k],
    ) by {
        assert(rightly_queued(s, r, GameMode::Casual, s.casual[r][k]));
    }
    assert forall|r: Region, k: int| 0 <= k < s.competitive[r].len() implies rightly_queued(
        t,
        r,
        GameMode::Competitive,
        (#[trigger] s.competitive[r][k]).lobby,
    ) by {
        assert(rightly_queued(s, r, GameMode::Competitive, s.competitive[r][k].lobby));
    }
        let q = s.casual[region];
        let q2 = q.push(queued);
        assert(t.casual[region] == q2);
        assert forall|r: Region, k: int| 0 <= k < t.casual[r].len() implies rightly_queued(
            t,
            r,
            GameMode::Casual,
            #[trigger] t.casual[r][k],
        ) by {
            if r == region && k < q.len() {
                assert(q2[k] == s.casual[r][k]);
            } else if r != region {
                assert(t.casual[r][k] == s.casual[r][k]);
            }
        }
        assert forall|r: Region, a: int, b: int| 0 <= a < b < t.casual[r].len() implies (
        #[trigger] t.casual[r][a]).lobby_id != (#[trigger] t.casual[r][b]).lobby_id by {
            if r == region {
                assert(q2[a] == q[a]);
                assert(rightly_queued(s, r, GameMode::Casual, q[a]));
                if b < q.len() {
                    assert(q2[b] == q[b]);
                    assert(q[a].lobby_id != q[b].lobby_id);
                }
            } else {
                assert(s.casual[r][a].lobby_id != s.casual[r][b].lobby_id);
            }
        }
        assert forall|r: Region, l: LobbyID| #[trigger]
            t.lobbies.contains_key((r, l)) && t.lobbies[(r, l)].status == LobbyStatus::Queueing implies (
        match t.lobbies[(r, l)].params.mode {
            GameMode::Casual => in_casual(t, r, l),
            GameMode::Competitive => in_competitive(t, r, l),
        }) by {
            if (r, l) == (region, id) {
                assert(q2[q.len() as int].lobby_id == id);
            } else {
                assert(s.lobbies.contains_key((r, l)));
                match t.lobbies[(r, l)].params.mode {
                    GameMode::Casual => {
                        assert(in_casual(s, r, l));
                        let k0 = choose|k0: int|
                            0 <= k0 < s.casual[r].len() && (#[trigger] s.casual[r][k0]).lobby_id == l;
                        if r == region {
                            assert(q2[k0] == q[k0]);
                        }
                        assert(t.casual[r][k0].lobby_id == l);
                    },
                    GameMode::Competitive => {
                        assert(in_competitive(s, r, l));
                        let k0 = choose|k0: int|
                            0 <= k0 < s.competitive[r].len() && (#[trigger] s.competitive[r][k0]).lobby.lobby_id
                                == l;
                        assert(t.competitive[r][k0].lobby.lobby_id == l);
                    },
                }
            }
        }
        assert(queues_mirror_status(t));
        assert forall|r: Region, k: int| 0 <= k < t.competitive[r].len() implies holds_entry(
            s.competitive[r],
            #[trigger] t.competitive[r][k],
        ) by {
            assert(s.competitive[r][k] == t.competitive[r][k]);
        }
        assert forall|r: Region| sorted_by_rating(#[trigger] t.competitive[r]) by {
            assert(sorted_by_rating(s.competitive[r]));
        }
        assert(ratings_of_queued_kept(s, t));
        lemma_ratings_moved(s, t);
}

/// Queueing a full idle competitive lobby keeps the queues right and
/// ordered.
#[verifier::rlimit(60)]
pub proof fn lemma_queue_competitive_keeps(s: StoreView, t: StoreView, region: Region, id: LobbyID)
    requires
        consistent(s),
        s.lobbies.contains_key((region, id)),
        s.lobbies[(region, id)].status == LobbyStatus::Idle,
        s.lobbies[(region, id)].params.mode == GameMode::Competitive,
        t == queue_lobby_outcome(s, s.lobbies[(region, id)].leader, id).state,
        t != s,
        region == s.lobby_regions[id],
    ensures
        queues_mirror_status(t),
        competitive_sorted(t),
{
    let lobby = s.lobbies[(region, id)];
    let queued = with_status(lobby, LobbyStatus::Queueing);
    assert(lobby.lobby_id == id);
    // no entry of a queue is the lobby that is queued now
    assert forall|r: Region, k: int| 0 <= k < s.casual[r].len() implies rightly_queued(
        t,
        r,
        GameMode::Casual,
        #[trigger] s.casual[r][k],
    ) by {
        assert(rightly_queued(s, r, GameMode::Casual, s.casual[r][k]));
    }
    assert forall|r: Region, k: int| 0 <= k < s.competitive[r].len() implies rightly_queued(
        t,
        r,
        GameMode::Competitive,
        (#[trigger] s.competitive[r][k]).lobby,
    ) by {
        assert(rightly_queued(s, r, GameMode::Competitive, s.competitive[r][k].lobby));
    }
        let q = s.competitive[region];
        lemma_mean_rating_bound(s.players, lobby.players);
        let rating = average_rating(s, region, id) as usize;
        let e = RatedView { rating: rating, lobby: queued };
        assert(sorted_by_rating(q));
        lemma_ordered_insert_sorted(q, e);
        let pos = first_where(q, rated_above(rating));
        let q2 = q.insert(pos, e);
        assert(t.competitive[region] == q2);
        assert forall|r: Region, k: int| 0 <= k < t.competitive[r].len() implies rightly_queued(
            t,
            r,
            GameMode::Competitive,
            (#[trigger] t.competitive[r][k]).lobby,
        ) by {
            if r == region {
                if k < pos {
                    assert(q2[k] == q[k]);
                } else if k > pos {
                    assert(q2[k] == q[k - 1]);
                }
            } else {
                assert(t.competitive[r][k] == s.competitive[r][k]);
            }
        }
        assert forall|r: Region, a: int, b: int| 0 <= a < b < t.competitive[r].len() implies (
        #[trigger] t.competitive[r][a]).lobby.lobby_id != (#[trigger] t.competitive[r][b]).lobby.lobby_id by {
            if r == region {
                let a0 = if a < pos { a } else { a - 1 };
                let b0 = if b < pos { b } else { b - 1 };
                if a != pos {
                    assert(q2[a] == q[a0]);
                    assert(rightly_queued(s, r, GameMode::Competitive, q[a0].lobby));
                }
                if b != pos {
                    assert(q2[b] == q[b0]);
                    assert(rightly_queued(s, r, GameMode::Competitive, q[b0].lobby));
                }
                if a != pos && b != pos {
                    assert(q[a0].lobby.lobby_id != q[b0].lobby.lobby_id);
                }
            } else {
                assert(s.competitive[r][a].lobby.lobby_id != s.competitive[r][b].lobby.lobby_id);
            }
        }
        assert forall|r: Region, l: LobbyID| #[trigger]
            t.lobbies.contains_key((r, l)) && t.lobbies[(r, l)].status == LobbyStatus::Queueing implies (
        match t.lobbies[(r, l)].params.mode {
            GameMode::Casual => in_casual(t, r, l),
            GameMode::Competitive => in_competitive(t, r, l),
        }) by {
            if (r, l) == (region, id) {
                assert(q2[pos].lobby.lobby_id == id);
            } else {
                assert(s.lobbies.contains_key((r, l)));
                match t.lobbies[(r, l)].params.mode {
                    GameMode::Casual => {
                        assert(in_casual(s, r, l));
                        let k0 = choose|k0: int|
                            0 <= k0 < s.casual[r].len() && (#[trigger] s.casual[r][k0]).lobby_id == l;
                        assert(t.casual[r][k0].lobby_id == l);
                    },
                    GameMode::Competitive => {
                        assert(in_competitive(s, r, l));
                        let k0 = choose|k0: int|
                            0 <= k0 < s.competitive[r].len() && (#[trigger] s.competitive[r][k0]).lobby.lobby_id
                                == l;
                        if r == region {
                            let k = if k0 < pos { k0 } else { k0 + 1 };
                            assert(q2[k] == q[k0]);
                            assert(t.competitive[r][k].lobby.lobby_id == l);
                        } else {
                            assert(t.competitive[r][k0].lobby.lobby_id == l);
                        }
                    },
                }
            }
        }
        assert(queues_mirror_status(t));
        assert forall|r: Region| sorted_by_rating(#[trigger] t.competitive[r]) by {
            if r != region {
                assert(sorted_by_rating(s.competitive[r]));
            }
        }
        assert forall|r: Region, k: int| 0 <= k < t.competitive[r].len() implies (
        #[trigger] t.competitive[r][k]).rating == average_rating(t, r, t.competitive[r][k].lobby.lobby_id) by {
            let entry = t.competitive[r][k];
            let l = entry.lobby.lobby_id;
            assert(rightly_queued(t, r, GameMode::Competitive, entry.lobby));
            if r == region && k == pos {
                lemma_average_agrees(s, t, r, l);
            } else {
                let k0 = if r != region || k < pos { k } else { k - 1 };
                assert(s.competitive[r][k0] == entry);
                assert(rightly_queued(s, r, GameMode::Competitive, s.competitive[r][k0].lobby));
                lemma_average_agrees(s, t, r, l);
            }
        }
        assert(competitive_sorted(t));
}

/// `QueueLobby` keeps the store consistent.
pub proof fn lemma_queue_lobby_keeps(s: StoreView, p: PlayerID, id: LobbyID)
    requires
        consistent(s),
    ensures
        consistent(queue_lobby_outcome(s, p, id).state),
{
    let t = queue_lobby_outcome(s, p, id).state;
    if t != s {
        let region = s.lobby_regions[id];
        let lobby = s.lobbies[(region, id)];
        assert(s.lobbies.contains_key((region, id)));
        assert(lobby.lobby_id == id);
        match lobby.params.mode {
            GameMode::Casual => {
                lemma_queue_casual_keeps(s, t, region, id);
            },
            GameMode::Competitive => {
                lemma_queue_competitive_keeps(s, t, region, id);
            },
        }
        assert forall|q: PlayerID| #[trigger] t.players.contains_key(q) && t.players[q].1 is Some implies find_lobby(
            t,
            t.players[q].1->Some_0,
        ) is Some && find_lobby(t, t.players[q].1->Some_0)->Some_0.players.contains(q) by {
            assert(s.players.contains_key(q));
        }
        assert(membership_mirrored(t));
    }
}


/// What a matched lobby is stored as: the requester with the tolerance
/// that found the match, both in game.
pub open spec fn entered(lobby: LobbyView, requester: bool, threshold: usize) -> LobbyView {
    if requester {
        matched_requester(lobby, threshold)
    } else {
        with_status(lobby, LobbyStatus::Ingame)
    }
}

/// Taking a matched pair out of a casual queue and into the game keeps the
/// queues right and ordered.
pub proof fn lemma_casual_pair_keeps(s: StoreView, region: Region, tp: int, c: int, threshold: usize)
    requires
        consistent(s),
        0 <= tp < s.casual[region].len(),
        0 <= c < s.casual[region].len(),
        tp != c,
    ensures
        queues_mirror_status(
            finalized(
                unqueued_pair(s, region, GameMode::Casual, tp, c),
                region,
                s.casual[region][tp],
                s.casual[region][c],
                threshold,
            ),
        ),
        competitive_sorted(
            finalized(
                unqueued_pair(s, region, GameMode::Casual, tp, c),
                region,
                s.casual[region][tp],
                s.casual[region][c],
                threshold,
            ),
        ),
{
    let q = s.casual[region];
    let t = finalized(unqueued_pair(s, region, GameMode::Casual, tp, c), region, q[tp], q[c], threshold);
    let hi = if tp < c { c } else { tp };
    let lo = if tp < c { tp } else { c };
    assert(q[hi].lobby_id != q[lo].lobby_id);
    assert(rightly_queued(s, region, GameMode::Casual, q[hi]));
    assert(rightly_queued(s, region, GameMode::Casual, q[lo]));
    let u = StoreView {
        casual: s.casual.insert(region, q.remove(hi)),
        lobbies: s.lobbies.insert((region, q[hi].lobby_id), entered(q[hi], hi == tp, threshold)),
        ..s
    };
    lemma_casual_removed(s, u, region, hi);
    assert(u.casual[region][lo] == q[lo]);
    let v = StoreView {
        casual: u.casual.insert(region, u.casual[region].remove(lo)),
        lobbies: u.lobbies.insert((region, q[lo].lobby_id), entered(q[lo], lo == tp, threshold)),
        ..u
    };
    lemma_casual_removed(u, v, region, lo);
    assert(v.casual =~= t.casual);
    assert(v.lobbies =~= t.lobbies);
    assert(v == t);
    assert forall|r: Region, k: int| 0 <= k < t.competitive[r].len() implies holds_entry(
        s.competitive[r],
        #[trigger] t.competitive[r][k],
    ) by {
        assert(s.competitive[r][k] == t.competitive[r][k]);
    }
    assert forall|r: Region| sorted_by_rating(#[trigger] t.competitive[r]) by {
        assert(sorted_by_rating(s.competitive[r]));
    }
    assert(ratings_of_queued_kept(s, t));
    lemma_ratings_moved(s, t);
}

/// Taking a matched pair out of a competitive queue and into the game
/// keeps the queues right.
pub proof fn lemma_competitive_pair_right(s: StoreView, region: Region, tp: int, c: int, threshold: usize)
    requires
        consistent(s),
        0 <= tp < s.competitive[region].len(),
        0 <= c < s.competitive[region].len(),
        tp != c,
    ensures
        queues_mirror_status(
            finalized(
                unqueued_pair(s, region, GameMode::Competitive, tp, c),
                region,
                s.competitive[region][tp].lobby,
                s.competitive[region][c].lobby,
                threshold,
            ),
        ),
{
    let q = s.competitive[region];
    let t = finalized(
        unqueued_pair(s, region, GameMode::Competitive, tp, c),
        region,
        q[tp].lobby,
        q[c].lobby,
        threshold,
    );
    let hi = if tp < c { c } else { tp };
    let lo = if tp < c { tp } else { c };
    assert(q[hi].lobby.lobby_id != q[lo].lobby.lobby_id);
    assert(rightly_queued(s, region, GameMode::Competitive, q[hi].lobby));
    assert(rightly_queued(s, region, GameMode::Competitive, q[lo].lobby));
    let u = StoreView {
        competitive: s.competitive.insert(region, q.remove(hi)),
        lobbies: s.lobbies.insert((region, q[hi].lobby.lobby_id), entered(q[hi].lobby, hi == tp, threshold)),
        ..s
    };
    lemma_competitive_removed(s, u, region, hi);
    assert(u.competitive[region][lo] == q[lo]);
    let v = StoreView {
        competitive: u.competitive.insert(region, u.competitive[region].remove(lo)),
        lobbies: u.lobbies.insert((region, q[lo].lobby.lobby_id), entered(q[lo].lobby, lo == tp, threshold)),
        ..u
    };
    lemma_competitive_removed(u, v, region, lo);
    assert(v.competitive =~= t.competitive);
    assert(v.lobbies =~= t.lobbies);
    assert(v == t);
}

/// A queue without two of its entries holds only entries that it held, and
/// is ordered if it was.
pub proof fn lemma_pair_removed_entries(q: Seq<RatedView>, hi: int, lo: int)
    requires
        0 <= lo < hi < q.len(),
    ensures
        forall|k: int|
            0 <= k < q.remove(hi).remove(lo).len() ==> holds_entry(q, #[trigger] q.remove(hi).remove(lo)[k]),
        sorted_by_rating(q) ==> sorted_by_rating(q.remove(hi).remove(lo)),
{
    let q1 = q.remove(hi);
    let q2 = q1.remove(lo);
    assert forall|k: int| 0 <= k < q2.len() implies holds_entry(q, #[trigger] q2[k]) by {
        let k1 = if k < lo { k } else { k + 1 };
        let k2 = if k1 < hi { k1 } else { k1 + 1 };
        assert(q2[k] == q1[k1]);
        assert(q1[k1] == q[k2]);
    }
    if sorted_by_rating(q) {
        lemma_remove_keeps_sorted(q, hi);
        lemma_remove_keeps_sorted(q1, lo);
    }
}

/// Where two entries were taken out of the competitive queue of a region,
/// the queues are right and nothing else of the queues and no rating has
/// changed, the queues are ordered by the current average ratings.
pub proof fn lemma_competitive_pair_ordered(s: StoreView, t: StoreView, region: Region, hi: int, lo: int)
    requires
        competitive_sorted(s),
        queues_mirror_status(s),
        queues_mirror_status(t),
        0 <= lo < hi < s.competitive[region].len(),
        t.competitive == s.competitive.insert(region, s.competitive[region].remove(hi).remove(lo)),
        t.players == s.players,
    ensures
        competitive_sorted(t),
{
    let q = s.competitive[region];
    lemma_pair_removed_entries(q, hi, lo);
    assert(sorted_by_rating(q));
    assert forall|r: Region| sorted_by_rating(#[trigger] t.competitive[r]) by {
        if r != region {
            assert(sorted_by_rating(s.competitive[r]));
        }
    }
    assert forall|r: Region, k: int| 0 <= k < t.competitive[r].len() implies holds_entry(
        s.competitive[r],
        #[trigger] t.competitive[r][k],
    ) by {
        if r != region {
            assert(s.competitive[r][k] == t.competitive[r][k]);
        }
    }
    lemma_ratings_moved(s, t);
}

/// `CheckMatch` keeps the store consistent.
pub proof fn lemma_check_match_keeps(s: StoreView, p: PlayerID, id: LobbyID, threshold: usize)
    requires
        consistent(s),
    ensures
        consistent(check_match_outcome(s, p, id, threshold).state),
{
    let t = check_match_outcome(s, p, id, threshold).state;
    if t != s {
        let region = s.lobby_regions[id];
        let lobby = s.lobbies[(region, id)];
        let mode = lobby.params.mode;
        let pair = match_pair(s, region, mode, id, threshold);
        assert(pair is Some);
        let tp = pair->Some_0.0;
        let c = pair->Some_0.1;
        let a = queued_at(s, region, mode, tp);
        let b = queued_at(s, region, mode, c);
        match mode {
            GameMode::Casual => {
                lemma_first_where(s.casual[region], has_id(id));
                lemma_casual_pair_keeps(s, region, tp, c, threshold);
                assert(rightly_queued(s, region, GameMode::Casual, s.casual[region][tp]));
                assert(rightly_queued(s, region, GameMode::Casual, s.casual[region][c]));
            },
            GameMode::Competitive => {
                let q = s.competitive[region];
                lemma_first_where(q, rated_has_id(id));
                lemma_first_where(q, is_candidate(id, q[tp].rating, threshold));
                assert(acceptable(id, q[tp].rating, threshold, q[c]));
                lemma_competitive_pair_right(s, region, tp, c, threshold);
                lemma_competitive_pair_ordered(
                    s,
                    t,
                    region,
                    if tp < c { c } else { tp },
                    if tp < c { tp } else { c },
                );
                assert(rightly_queued(s, region, GameMode::Competitive, q[tp].lobby));
                assert(rightly_queued(s, region, GameMode::Competitive, q[c].lobby));
            },
        }
        assert(s.lobbies.contains_key((region, a.lobby_id)) && s.lobbies[(region, a.lobby_id)] == a);
        assert(s.lobbies.contains_key((region, b.lobby_id)) && s.lobbies[(region, b.lobby_id)] == b);
        assert forall|q: PlayerID| #[trigger] t.players.contains_key(q) && t.players[q].1 is Some implies find_lobby(
            t,
            t.players[q].1->Some_0,
        ) is Some && find_lobby(t, t.players[q].1->Some_0)->Some_0.players.contains(q) by {
            assert(s.players.contains_key(q));
        }
        assert(membership_mirrored(t));
    }
}

} // verus!
