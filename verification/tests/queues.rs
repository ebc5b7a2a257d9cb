use gamesync::lobby::{GameMode, Lobby, LobbyParams, LobbyStatus, Region, Visibility};
use gamesync::queue::{accepts, high_end, low_end, CasualQueue, CompetitiveQueue, RatedLobby};

fn lobby(id: u128, threshold: usize) -> Lobby {
    Lobby {
        lobby_id: id,
        params: LobbyParams {
            name: format!("lobby {}", id),
            visibility: Visibility::Public,
            region: Region::EU,
            mode: GameMode::Competitive,
        },
        leader: id * 10,
        status: LobbyStatus::Queueing,
        player_list: vec![id * 10, id * 10 + 1],
        queue_threshold: threshold,
    }
}

fn casual(ids: &[u128]) -> CasualQueue {
    let mut q = CasualQueue::new();
    for id in ids {
        q.add(lobby(*id, 0));
    }
    q
}

fn casual_ids(q: &CasualQueue) -> Vec<u128> {
    q.snapshot().iter().map(|l| l.lobby_id).collect()
}

fn competitive(entries: &[(u128, usize, usize)]) -> CompetitiveQueue {
    let mut q = CompetitiveQueue::new();
    for (id, rating, threshold) in entries {
        q.add(*rating, lobby(*id, *threshold));
    }
    q
}

fn competitive_ids(q: &CompetitiveQueue) -> Vec<u128> {
    q.snapshot().iter().map(|l| l.lobby_id).collect()
}

#[test]
fn casual_queue_keeps_arrival_order() {
    let q = casual(&[3, 1, 2]);
    assert_eq!(q.len(), 3);
    assert_eq!(casual_ids(&q), vec![3, 1, 2]);
    assert_eq!(q.position(1), 1);
    assert_eq!(q.position(9), 3);
}

#[test]
fn casual_remove_keeps_the_order_of_the_rest() {
    let mut q = casual(&[3, 1, 2, 5]);
    q.remove(1);
    assert_eq!(casual_ids(&q), vec![3, 2, 5]);
    q.remove(8);
    assert_eq!(casual_ids(&q), vec![3, 2, 5]);
    q.remove(5);
    q.remove(3);
    assert_eq!(casual_ids(&q), vec![2]);
}

#[test]
fn casual_match_pairs_with_the_head() {
    let mut q = casual(&[3, 1, 2, 5]);
    let (a, b) = q.try_match(2).unwrap();
    assert_eq!((a.lobby_id, b.lobby_id), (2, 3));
    assert_eq!(casual_ids(&q), vec![1, 5]);
}

#[test]
fn casual_match_of_the_head_pairs_with_the_next() {
    let mut q = casual(&[3, 1, 2]);
    let (a, b) = q.try_match(3).unwrap();
    assert_eq!((a.lobby_id, b.lobby_id), (3, 1));
    assert_eq!(casual_ids(&q), vec![2]);
}

#[test]
fn casual_match_needs_two_lobbies_and_the_requester() {
    let mut q = casual(&[3]);
    assert!(q.try_match(3).is_none());
    assert_eq!(casual_ids(&q), vec![3]);
    let mut q = casual(&[3, 4]);
    assert!(q.try_match(5).is_none());
    assert_eq!(casual_ids(&q), vec![3, 4]);
    let mut q = casual(&[]);
    assert!(q.try_match(5).is_none());
}

#[test]
fn competitive_queue_is_ordered_by_rating_then_arrival() {
    let q = competitive(&[(1, 50, 0), (2, 10, 0), (3, 50, 0), (4, 30, 0), (5, 10, 0), (6, 70, 0)]);
    assert_eq!(q.len(), 6);
    assert_eq!(competitive_ids(&q), vec![2, 5, 4, 1, 3, 6]);
    assert_eq!(q.position(4), 2);
    assert_eq!(q.position(40), 6);
}

#[test]
fn competitive_remove_keeps_the_order_of_the_rest() {
    let mut q = competitive(&[(1, 50, 0), (2, 10, 0), (3, 50, 0)]);
    q.remove(1);
    assert_eq!(competitive_ids(&q), vec![2, 3]);
    q.remove(1);
    assert_eq!(competitive_ids(&q), vec![2, 3]);
}

#[test]
fn windows_saturate_at_zero_and_do_not_overflow() {
    assert_eq!(low_end(1000, 50), 950);
    assert_eq!(low_end(10, 50), 0);
    assert_eq!(low_end(50, 50), 0);
    assert_eq!(high_end(1000, 50), 1050);
    assert_eq!(high_end(usize::MAX, usize::MAX), 2 * (usize::MAX as u128));
}

#[test]
fn acceptable_means_inside_the_requesters_window() {
    let at = |rating: usize, threshold: usize| RatedLobby { rating, lobby: lobby(2, threshold) };
    assert!(accepts(1, 1000, 50, &at(1050, 0)));
    assert!(accepts(1, 1000, 50, &at(950, 0)));
    assert!(!accepts(1, 1000, 50, &at(1051, 500)));
    assert!(!accepts(1, 1000, 50, &at(949, 500)));
    assert!(!accepts(2, 1000, 50, &at(1000, 0)));
    assert!(accepts(1, 10, 50, &at(0, 0)));
    assert!(accepts(1, usize::MAX, usize::MAX, &at(0, 0)));
}

#[test]
fn competitive_windows_of_seventy_apart() {
    let mut q = competitive(&[(1, 1000, 50), (2, 1070, 40)]);
    assert!(q.try_match(1, 50).is_none());
    assert_eq!(competitive_ids(&q), vec![1, 2]);
    let mut q = competitive(&[(1, 1000, 50), (2, 1070, 20)]);
    assert!(q.try_match(1, 50).is_none());
    let mut q = competitive(&[(1, 1000, 50), (2, 1070, 10)]);
    assert!(q.try_match(1, 50).is_none());
    assert_eq!(competitive_ids(&q), vec![1, 2]);
    let (a, b) = q.try_match(1, 70).unwrap();
    assert_eq!((a.lobby_id, b.lobby_id), (1, 2));
    assert_eq!(q.len(), 0);
}

#[test]
fn competitive_match_at_the_edge_is_inclusive() {
    let mut q = competitive(&[(1, 1000, 0), (2, 1050, 20)]);
    let (a, b) = q.try_match(1, 50).unwrap();
    assert_eq!((a.lobby_id, b.lobby_id), (1, 2));
    let mut q = competitive(&[(1, 1000, 0), (2, 950, 0)]);
    let (a, b) = q.try_match(1, 50).unwrap();
    assert_eq!((a.lobby_id, b.lobby_id), (1, 2));
}

#[test]
fn competitive_match_takes_the_lowest_rated_candidate() {
    let mut q = competitive(&[(1, 100, 0), (2, 95, 0), (3, 105, 0), (4, 90, 0), (5, 300, 0)]);
    assert_eq!(competitive_ids(&q), vec![4, 2, 1, 3, 5]);
    let (a, b) = q.try_match(1, 5).unwrap();
    assert_eq!((a.lobby_id, b.lobby_id), (1, 2));
    assert_eq!(competitive_ids(&q), vec![4, 3, 5]);
    let (a, b) = q.try_match(5, 195).unwrap();
    assert_eq!((a.lobby_id, b.lobby_id), (5, 3));
    assert_eq!(competitive_ids(&q), vec![4]);
}

#[test]
fn competitive_match_skips_the_requester_and_needs_it_queued() {
    let mut q = competitive(&[(1, 100, 0)]);
    assert!(q.try_match(1, 1000).is_none());
    assert!(q.try_match(7, 1000).is_none());
    assert_eq!(competitive_ids(&q), vec![1]);
    assert_eq!(q.candidate(1, 100, 1000), 1);
    assert_eq!(q.candidate(2, 100, 1000), 0);
}
