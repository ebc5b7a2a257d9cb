//! The two kinds of matchmaking queue: first come, first served for casual
//! play, and ordered by rating with tolerance windows for competitive play.

use crate::lobby::{Lobby, LobbyID, LobbyView};
use std::collections::VecDeque;
use vstd::prelude::*;

verus! {

/// The values of a sequence of lobbies.
pub open spec fn lobby_views(q: Seq<Lobby>) -> Seq<LobbyView> {
    q.map_values(|l: Lobby| l@)
}

/// The first position of `q` whose element satisfies `pred`, or the length of
/// `q` where none does.
pub open spec fn first_where<A>(q: Seq<A>, pred: spec_fn(A) -> bool) -> int
    decreases q.len(),
{
    if q.len() == 0 {
        0
    } else if pred(q[0]) {
        0
    } else {
        1 + first_where(q.drop_first(), pred)
    }
}

/// `first_where` is in range, satisfies the predicate when within the
/// sequence, and nothing before it does.
pub proof fn lemma_first_where<A>(q: Seq<A>, pred: spec_fn(A) -> bool)
    ensures
        0 <= first_where(q, pred) <= q.len(),
        first_where(q, pred) < q.len() ==> pred(q[first_where(q, pred)]),
        forall|j: int| 0 <= j < first_where(q, pred) ==> !pred(#[trigger] q[j]),
    decreases q.len(),
{
    if q.len() > 0 && !pred(q[0]) {
        let rest = q.drop_first();
        lemma_first_where(rest, pred);
        assert forall|j: int| 0 <= j < first_where(q, pred) implies !pred(#[trigger] q[j]) by {
            if j > 0 {
                assert(q[j] == rest[j - 1]);
            }
        }
    }
}

/// A position that satisfies the predicate, with none before it that does,
/// is the one `first_where` gives; so is the length where no position does.
pub proof fn lemma_first_where_is<A>(q: Seq<A>, pred: spec_fn(A) -> bool, i: int)
    requires
        0 <= i <= q.len(),
        i < q.len() ==> pred(q[i]),
        forall|j: int| 0 <= j < i ==> !pred(#[trigger] q[j]),
    ensures
        first_where(q, pred) == i,
{
    lemma_first_where(q, pred);
    let r = first_where(q, pred);
    if r < i {
        assert(!pred(q[r]));
    } else if i < r {
        assert(!pred(q[i]));
    }
}

/// `q` without the elements at the two distinct positions `i` and `j`.
pub open spec fn remove_pair<A>(q: Seq<A>, i: int, j: int) -> Seq<A> {
    if i < j {
        q.remove(j).remove(i)
    } else {
        q.remove(i).remove(j)
    }
}

/// `q` without its element at `i`; `q` itself where `i` is its length.
pub open spec fn remove_at<A>(q: Seq<A>, i: int) -> Seq<A> {
    if 0 <= i < q.len() {
        q.remove(i)
    } else {
        q
    }
}

/// The predicate "is the lobby `id`".
pub open spec fn has_id(id: LobbyID) -> spec_fn(LobbyView) -> bool {
    |l: LobbyView| l.lobby_id == id
}

/// Whether a lobby with the identifier stands in the sequence.
pub open spec fn holds_lobby(q: Seq<LobbyView>, id: LobbyID) -> bool {
    exists|i: int| 0 <= i < q.len() && (#[trigger] q[i]).lobby_id == id
}

/// The positions of the requester `id` and of the lobby it is paired with in
/// a casual queue: the head-most other lobby. `None` where the requester is
/// absent or alone.
pub open spec fn casual_pair(q: Seq<LobbyView>, id: LobbyID) -> Option<(int, int)> {
    let t = first_where(q, has_id(id));
    if q.len() < 2 || t >= q.len() {
        None
    } else if t == 0 {
        Some((0, 1))
    } else {
        Some((t, 0))
    }
}

/// A casual queue: lobbies in the order in which they were queued.
pub struct CasualQueue {
    entries: VecDeque<Lobby>,
}

impl View for CasualQueue {
    type V = Seq<LobbyView>;

    closed spec fn view(&self) -> Seq<LobbyView> {
        lobby_views(self.entries@)
    }
}

impl CasualQueue {
    /// An empty queue.
    pub fn new() -> (q: CasualQueue)
        ensures
            q@ == Seq::<LobbyView>::empty(),
    {
        let q = CasualQueue { entries: VecDeque::new() };
        assert(q@ =~= Seq::<LobbyView>::empty());
        q
    }

    /// The number of queued lobbies.
    pub fn len(&self) -> (n: usize)
        ensures
            n == self@.len(),
    {
        self.entries.len()
    }

    /// Appends a lobby at the tail.
    pub fn add(&mut self, lobby: Lobby)
        ensures
            final(self)@ == old(self)@.push(lobby@),
    {
        self.entries.push_back(lobby);
        assert(self@ =~= old(self)@.push(lobby@));
    }

    /// The position of the first lobby with the identifier, or the length of
    /// the queue.
    pub fn position(&self, lobby_id: LobbyID) -> (i: usize)
        ensures
            i == first_where(self@, has_id(lobby_id)),
            i <= self@.len(),
    {
        let mut i: usize = 0;
        while i < self.entries.len() && self.entries[i].lobby_id != lobby_id
            invariant
                i <= self.entries@.len(),
                forall|j: int| 0 <= j < i ==> !has_id(lobby_id)(#[trigger] self@[j]),
            decreases self.entries@.len() - i,
        {
            i += 1;
        }
        proof {
            lemma_first_where_is(self@, has_id(lobby_id), i as int);
        }
        i
    }

    /// Takes the first lobby with the identifier out of the queue; the others
    /// keep their order.
    pub fn remove(&mut self, lobby_id: LobbyID)
        ensures
            final(self)@ == remove_at(old(self)@, first_where(old(self)@, has_id(lobby_id))),
    {
        let i = self.position(lobby_id);
        if i < self.entries.len() {
            let _ = self.entries.remove(i);
            assert(self@ =~= old(self)@.remove(i as int));
        }
    }

    /// Pairs the lobby `lobby_id` with the head-most other lobby and takes
    /// both out of the queue. Where the lobby is not queued or is alone, the
    /// queue stays as it is.
    pub fn try_match(&mut self, lobby_id: LobbyID) -> (r: Option<(Lobby, Lobby)>)
        ensures
            match casual_pair(old(self)@, lobby_id) {
                Some((t, p)) => {
                    &&& r is Some
                    &&& r->Some_0.0@ == old(self)@[t]
                    &&& r->Some_0.1@ == old(self)@[p]
                    &&& final(self)@ == remove_pair(old(self)@, t, p)
                },
                None => r is None && final(self)@ == old(self)@,
            },
    {
        if self.entries.len() < 2 {
            return None;
        }
        let t = self.position(lobby_id);
        if t >= self.entries.len() {
            return None;
        }
        let first = self.entries.remove(t);
        let second = self.entries.pop_front();
        match (first, second) {
            (Some(a), Some(b)) => {
                proof {
                    let q = old(self).entries@;
                    if t == 0 {
                        assert(self.entries@ =~= q.remove(1).remove(0));
                    } else {
                        assert(self.entries@ =~= q.remove(t as int).remove(0));
                    }
                    assert(self@ =~= remove_pair(old(self)@, t as int, if t == 0 { 1int } else { 0int }));
                }
                Some((a, b))
            },
            _ => {
                proof {
                    assert(false);
                }
                None
            },
        }
    }

    /// A copy of the queued lobbies, head first.
    pub fn snapshot(&self) -> (r: VecDeque<Lobby>)
        ensures
            lobby_views(r@) == self@,
    {
        let mut r: VecDeque<Lobby> = VecDeque::new();
        let mut i: usize = 0;
        while i < self.entries.len()
            invariant
                i <= self.entries@.len(),
                r@.len() == i,
                forall|j: int| 0 <= j < i ==> (#[trigger] r@[j])@ == self.entries@[j]@,
            decreases self.entries@.len() - i,
        {
            r.push_back(self.entries[i].clone());
            i += 1;
        }
        assert(lobby_views(r@) =~= self@);
        r
    }
}

/// A queued lobby with the average rating it was queued at.
#[derive(Debug)]
pub struct RatedLobby {
    pub rating: usize,
    pub lobby: Lobby,
}

/// The mathematical value of a [`RatedLobby`].
pub struct RatedView {
    pub rating: usize,
    pub lobby: LobbyView,
}

impl View for RatedLobby {
    type V = RatedView;

    open spec fn view(&self) -> RatedView {
        RatedView { rating: self.rating, lobby: self.lobby@ }
    }
}

/// The values of a sequence of rated lobbies.
pub open spec fn rated_views(q: Seq<RatedLobby>) -> Seq<RatedView> {
    q.map_values(|e: RatedLobby| e@)
}

/// The lobbies of a sequence of rated lobbies, without their ratings.
pub open spec fn unrated(q: Seq<RatedView>) -> Seq<LobbyView> {
    q.map_values(|e: RatedView| e.lobby)
}

/// The lower end of the tolerance window round a rating: the threshold
/// below it, but not below zero.
pub open spec fn window_low(rating: usize, threshold: usize) -> int {
    if rating >= threshold {
        rating - threshold
    } else {
        0
    }
}

/// The upper end of the tolerance window round a rating.
pub open spec fn window_high(rating: usize, threshold: usize) -> int {
    rating + threshold
}

/// Whether the tolerance windows of two lobbies have a rating in common.
pub open spec fn windows_meet(r1: usize, t1: usize, r2: usize, t2: usize) -> bool {
    window_low(r1, t1) <= window_high(r2, t2) && window_low(r2, t2) <= window_high(r1, t1)
}

/// Whether the entry `e` can be matched with a requester `id` of rating `r1`
/// that tolerates `threshold`: it is another lobby, its rating lies in the
/// requester's window, and its own window meets the requester's.
pub open spec fn acceptable(id: LobbyID, r1: usize, threshold: usize, e: RatedView) -> bool {
    &&& e.lobby.lobby_id != id
    &&& window_low(r1, threshold) <= e.rating <= window_high(r1, threshold)
    &&& windows_meet(r1, threshold, e.rating, e.lobby.queue_threshold)
}

/// The predicate "is the lobby `id`" on rated entries.
pub open spec fn rated_has_id(id: LobbyID) -> spec_fn(RatedView) -> bool {
    |e: RatedView| e.lobby.lobby_id == id
}

/// The predicate "is rated above `rating`".
pub open spec fn rated_above(rating: usize) -> spec_fn(RatedView) -> bool {
    |e: RatedView| e.rating > rating
}

/// The predicate [`acceptable`] with its first three arguments fixed.
pub open spec fn is_candidate(id: LobbyID, r1: usize, threshold: usize) -> spec_fn(RatedView) -> bool {
    |e: RatedView| acceptable(id, r1, threshold, e)
}

/// Whether the ratings never fall from one entry to the next.
pub open spec fn sorted_by_rating(q: Seq<RatedView>) -> bool {
    forall|i: int, j: int| 0 <= i < j < q.len() ==> (#[trigger] q[i]).rating <= (#[trigger] q[j]).rating
}

/// The positions of the requester `id` and of the first entry it can be
/// matched with when it tolerates `threshold`. `None` where the requester is
/// not queued or no entry is acceptable.
pub open spec fn competitive_pair(q: Seq<RatedView>, id: LobbyID, threshold: usize) -> Option<(int, int)> {
    let t = first_where(q, rated_has_id(id));
    if t >= q.len() {
        None
    } else {
        let c = first_where(q, is_candidate(id, q[t].rating, threshold));
        if c >= q.len() {
            None
        } else {
            Some((t, c))
        }
    }
}

/// The lower end of the tolerance window, as a machine integer.
pub fn low_end(rating: usize, threshold: usize) -> (r: usize)
    ensures
        r == window_low(rating, threshold),
{
    if rating >= threshold {
        rating - threshold
    } else {
        0
    }
}

/// The upper end of the tolerance window, as a machine integer wide enough
/// to hold it.
pub fn high_end(rating: usize, threshold: usize) -> (r: u128)
    ensures
        r == window_high(rating, threshold),
{
    rating as u128 + threshold as u128
}

/// Decides [`acceptable`] for a queued entry.
pub fn accepts(id: LobbyID, r1: usize, threshold: usize, e: &RatedLobby) -> (r: bool)
    ensures
        r == acceptable(id, r1, threshold, e@),
{
    let low1 = low_end(r1, threshold);
    let high1 = high_end(r1, threshold);
    let low2 = low_end(e.rating, e.lobby.queue_threshold);
    let high2 = high_end(e.rating, e.lobby.queue_threshold);
    e.lobby.lobby_id != id && low1 <= e.rating && e.rating as u128 <= high1 && low1 as u128 <= high2
        && low2 as u128 <= high1
}

/// A competitive queue: lobbies ordered by the average rating they were
/// queued at, lobbies of equal rating in the order in which they were queued.
pub struct CompetitiveQueue {
    entries: Vec<RatedLobby>,
}

impl View for CompetitiveQueue {
    type V = Seq<RatedView>;

    closed spec fn view(&self) -> Seq<RatedView> {
        rated_views(self.entries@)
    }
}

impl CompetitiveQueue {
    /// Whether the queue is ordered by rating.
    pub open spec fn wf(&self) -> bool {
        sorted_by_rating(self@)
    }

    /// An empty queue.
    pub fn new() -> (q: CompetitiveQueue)
        ensures
            q@ == Seq::<RatedView>::empty(),
            q.wf(),
    {
        let q = CompetitiveQueue { entries: Vec::new() };
        assert(q@ =~= Seq::<RatedView>::empty());
        q
    }

    /// The number of queued lobbies.
    pub fn len(&self) -> (n: usize)
        ensures
            n == self@.len(),
    {
        self.entries.len()
    }

    /// The position of the first lobby with the identifier, or the length of
    /// the queue.
    pub fn position(&self, lobby_id: LobbyID) -> (i: usize)
        ensures
            i == first_where(self@, rated_has_id(lobby_id)),
            i <= self@.len(),
    {
        let mut i: usize = 0;
        while i < self.entries.len() && self.entries[i].lobby.lobby_id != lobby_id
            invariant
                i <= self.entries@.len(),
                forall|j: int| 0 <= j < i ==> !rated_has_id(lobby_id)(#[trigger] self@[j]),
            decreases self.entries@.len() - i,
        {
            i += 1;
        }
        proof {
            lemma_first_where_is(self@, rated_has_id(lobby_id), i as int);
        }
        i
    }

    /// Places a lobby behind every lobby rated no higher than it and before
    /// every lobby rated higher.
    pub fn add(&mut self, rating: usize, lobby: Lobby)
        requires
            old(self).wf(),
        ensures
            final(self).wf(),
            final(self)@ == old(self)@.insert(
                first_where(old(self)@, rated_above(rating)),
                RatedView { rating: rating, lobby: lobby@ },
            ),
    {
        let mut i: usize = 0;
        while i < self.entries.len() && self.entries[i].rating <= rating
            invariant
                i <= self.entries@.len(),
                forall|j: int| 0 <= j < i ==> !rated_above(rating)(#[trigger] self@[j]),
            decreases self.entries@.len() - i,
        {
            i += 1;
        }
        proof {
            lemma_first_where_is(self@, rated_above(rating), i as int);
        }
        let entry = RatedLobby { rating, lobby };
        self.entries.insert(i, entry);
        proof {
            lemma_ordered_insert_sorted(old(self)@, entry@);
            assert(self@ =~= old(self)@.insert(i as int, entry@));
        }
    }

    /// Takes the first lobby with the identifier out of the queue; the others
    /// keep their order.
    pub fn remove(&mut self, lobby_id: LobbyID)
        requires
            old(self).wf(),
        ensures
            final(self).wf(),
            final(self)@ == remove_at(old(self)@, first_where(old(self)@, rated_has_id(lobby_id))),
    {
        let i = self.position(lobby_id);
        if i < self.entries.len() {
            let _ = self.entries.remove(i);
            proof {
                let before = old(self)@;
                assert(self@ =~= before.remove(i as int));
                lemma_remove_keeps_sorted(before, i as int);
            }
        }
    }

    /// The position of the first entry that the requester `lobby_id`, rated
    /// `r1` and tolerating `threshold`, can be matched with, or the length
    /// of the queue.
    pub fn candidate(&self, lobby_id: LobbyID, r1: usize, threshold: usize) -> (i: usize)
        ensures
            i == first_where(self@, is_candidate(lobby_id, r1, threshold)),
            i <= self@.len(),
    {
        let mut i: usize = 0;
        while i < self.entries.len() && !accepts(lobby_id, r1, threshold, &self.entries[i])
            invariant
                i <= self.entries@.len(),
                forall|j: int| 0 <= j < i ==> !is_candidate(lobby_id, r1, threshold)(#[trigger] self@[j]),
            decreases self.entries@.len() - i,
        {
            i += 1;
        }
        proof {
            lemma_first_where_is(self@, is_candidate(lobby_id, r1, threshold), i as int);
        }
        i
    }

    /// Matches the lobby `lobby_id`, tolerating `threshold`, with the first
    /// acceptable entry, and takes both out of the queue. Where the lobby is
    /// not queued or no entry is acceptable, the queue stays as it is.
    pub fn try_match(&mut self, lobby_id: LobbyID, threshold: usize) -> (r: Option<(Lobby, Lobby)>)
        requires
            old(self).wf(),
        ensures
            final(self).wf(),
            match competitive_pair(old(self)@, lobby_id, threshold) {
                Some((t, c)) => {
                    &&& r is Some
                    &&& r->Some_0.0@ == old(self)@[t].lobby
                    &&& r->Some_0.1@ == old(self)@[c].lobby
                    &&& final(self)@ == remove_pair(old(self)@, t, c)
                },
                None => r is None && final(self)@ == old(self)@,
            },
    {
        let t = self.position(lobby_id);
        if t >= self.entries.len() {
            return None;
        }
        let r1 = self.entries[t].rating;
        let c = self.candidate(lobby_id, r1, threshold);
        if c >= self.entries.len() {
            return None;
        }
        proof {
            lemma_first_where(self@, is_candidate(lobby_id, r1, threshold));
            lemma_first_where(self@, rated_has_id(lobby_id));
            assert(c != t);
        }
        let ghost before = self@;
        if t < c {
            let second = self.entries.remove(c);
            let first = self.entries.remove(t);
            proof {
                assert(self@ =~= before.remove(c as int).remove(t as int));
                lemma_remove_keeps_sorted(before, c as int);
                lemma_remove_keeps_sorted(before.remove(c as int), t as int);
            }
            Some((first.lobby, second.lobby))
        } else {
            let first = self.entries.remove(t);
            let second = self.entries.remove(c);
            proof {
                assert(self@ =~= before.remove(t as int).remove(c as int));
                lemma_remove_keeps_sorted(before, t as int);
                lemma_remove_keeps_sorted(before.remove(t as int), c as int);
            }
            Some((first.lobby, second.lobby))
        }
    }

    /// A copy of the queued lobbies, lowest rating first.
    pub fn snapshot(&self) -> (r: Vec<Lobby>)
        ensures
            lobby_views(r@) == unrated(self@),
    {
        let mut r: Vec<Lobby> = Vec::new();
        let mut i: usize = 0;
        while i < self.entries.len()
            invariant
                i <= self.entries@.len(),
                r@.len() == i,
                forall|j: int| 0 <= j < i ==> (#[trigger] r@[j])@ == self.entries@[j].lobby@,
            decreases self.entries@.len() - i,
        {
            r.push(self.entries[i].lobby.clone());
            i += 1;
        }
        assert(lobby_views(r@) =~= unrated(self@));
        r
    }
}

/// Placing an entry behind the entries rated no higher and before those
/// rated higher keeps a queue ordered.
pub proof fn lemma_ordered_insert_sorted(q: Seq<RatedView>, e: RatedView)
    requires
        sorted_by_rating(q),
    ensures
        0 <= first_where(q, rated_above(e.rating)) <= q.len(),
        sorted_by_rating(q.insert(first_where(q, rated_above(e.rating)), e)),
{
    lemma_first_where(q, rated_above(e.rating));
    let i = first_where(q, rated_above(e.rating));
    let after = q.insert(i, e);
    assert forall|a: int, b: int| 0 <= a < b < after.len() implies (#[trigger] after[a]).rating <= (
    #[trigger] after[b]).rating by {
        if a < i && b > i {
            assert(!rated_above(e.rating)(q[a]));
            assert(q[i].rating <= q[b - 1].rating || b - 1 == i);
            assert(rated_above(e.rating)(q[i]));
        } else if a < i && b == i {
            assert(!rated_above(e.rating)(q[a]));
        } else if a == i {
            assert(rated_above(e.rating)(q[i]));
            assert(q[i].rating <= q[b - 1].rating || b - 1 == i);
        } else if b < i {
            assert(q[a].rating <= q[b].rating);
        } else {
            assert(q[a - 1].rating <= q[b - 1].rating);
        }
    }
}

/// Taking an entry out of an ordered queue leaves it ordered.
pub proof fn lemma_remove_keeps_sorted(q: Seq<RatedView>, i: int)
    requires
        sorted_by_rating(q),
        0 <= i < q.len(),
    ensures
        sorted_by_rating(q.remove(i)),
{
    let r = q.remove(i);
    assert forall|a: int, b: int| 0 <= a < b < r.len() implies (#[trigger] r[a]).rating <= (
    #[trigger] r[b]).rating by {
        let a0 = if a < i { a } else { a + 1 };
        let b0 = if b < i { b } else { b + 1 };
        assert(r[a] == q[a0]);
        assert(r[b] == q[b0]);
    }
}

} // verus!
