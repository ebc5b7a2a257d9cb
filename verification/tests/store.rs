use gamesync::error::GameSyncError;
use gamesync::lobby::{GameMode, Lobby, LobbyParams, LobbyStatus, Player, Region, Visibility};
use gamesync::store::{DataStore, ServerParams};

fn store() -> DataStore {
    DataStore::new(ServerParams { player_count: 3 })
}

fn lobby(id: u128, region: Region, visibility: Visibility, members: &[u128]) -> Lobby {
    Lobby {
        lobby_id: id,
        params: LobbyParams { name: "x".to_string(), visibility, region, mode: GameMode::Competitive },
        leader: members[0],
        status: LobbyStatus::Idle,
        player_list: members.to_vec(),
        queue_threshold: 0,
    }
}

#[test]
fn new_store_is_empty() {
    let s = store();
    assert_eq!(s.lobby_size(), 3);
    assert_eq!(s.get_all_user_endpoints().len(), 0);
    assert_eq!(s.list_user_endpoints().len(), 0);
    assert_eq!(s.get_user(1), None);
    assert_eq!(s.get_user_endpoint(1), None);
    assert!(s.get_player_info(1).is_none());
    assert_eq!(s.get_region_lobby(1), None);
    for region in Region::all() {
        assert!(s.get_lobby(region, 1).is_none());
        assert_eq!(s.get_region_lobbies(region).len(), 0);
        assert_eq!(s.get_casual_lobbies(region).unwrap().len(), 0);
        assert_eq!(s.get_competitive_lobbies(region).unwrap().len(), 0);
    }
}

#[test]
fn endpoints_and_users_are_bound_both_ways() {
    let mut s = store();
    s.add_user_endpoint_with(7, 70);
    s.add_user_endpoint_with(8, 80);
    assert_eq!(s.get_user(7), Some(70));
    assert_eq!(s.get_user_endpoint(70), Some(7));
    assert_eq!(s.get_user(70), None);
    assert_eq!(s.get_user_endpoint(7), None);
    let mut all = s.list_user_endpoints();
    all.sort();
    assert_eq!(all, vec![(70, 7), (80, 8)]);
    let mut ends = s.get_all_user_endpoints();
    ends.sort();
    assert_eq!(ends, vec![7, 8]);
    s.remove_user_endpoint(7);
    assert_eq!(s.get_user(7), None);
    assert_eq!(s.get_user_endpoint(70), None);
    assert_eq!(s.get_user(8), Some(80));
    s.remove_user_endpoint(7);
    assert_eq!(s.get_all_user_endpoints(), vec![8]);
}

#[test]
fn minted_identifiers_are_random_uuids() {
    let mut s = store();
    let a = s.add_user_endpoint(1);
    let b = s.add_user_endpoint(2);
    assert_ne!(a, b);
    assert_eq!(a & 0xF000_C000_0000_0000_0000, 0x4000_8000_0000_0000_0000);
    assert_eq!(b & 0xF000_C000_0000_0000_0000, 0x4000_8000_0000_0000_0000);
    assert_eq!(s.get_user(1), Some(a));
    assert_eq!(s.get_user_endpoint(b), Some(2));
}

#[test]
fn players_are_added_edited_and_deleted() {
    let mut s = store();
    s.add_player(5, Player { player_id: 5, rating: 10 });
    assert_eq!(s.get_player_info(5), Some((Player { player_id: 5, rating: 10 }, None)));
    s.edit_player(5, None, Some(9));
    assert_eq!(s.get_player_info(5), Some((Player { player_id: 5, rating: 10 }, Some(9))));
    s.edit_player(5, Some(Player { player_id: 5, rating: 11 }), None);
    assert_eq!(s.get_player_info(5), Some((Player { player_id: 5, rating: 11 }, Some(9))));
    s.edit_player(6, Some(Player { player_id: 6, rating: 1 }), Some(2));
    assert_eq!(s.get_player_info(6), None);
    s.remove_player_lobby(5);
    assert_eq!(s.get_player_info(5), Some((Player { player_id: 5, rating: 11 }, None)));
    s.remove_player_lobby(6);
    assert_eq!(s.get_player_info(6), None);
    s.delete_player(5);
    assert_eq!(s.get_player_info(5), None);
}

#[test]
fn lobbies_live_in_the_bucket_of_their_region() {
    let mut s = store();
    s.create_lobby(Region::SA, 1, lobby(1, Region::SA, Visibility::Public, &[10]));
    assert_eq!(s.get_lobby(Region::SA, 1).unwrap().player_list, vec![10]);
    assert!(s.get_lobby(Region::NA, 1).is_none());
    assert!(s.get_lobby(Region::SA, 2).is_none());
    assert_eq!(s.edit_lobby(Region::SA, 1, lobby(1, Region::SA, Visibility::Public, &[10, 11])), Ok(()));
    assert_eq!(s.get_lobby(Region::SA, 1).unwrap().player_list, vec![10, 11]);
    assert_eq!(s.delete_lobby(Region::NA, 1), Ok(()));
    assert!(s.get_lobby(Region::SA, 1).is_some());
    assert_eq!(s.delete_lobby(Region::SA, 1), Ok(()));
    assert!(s.get_lobby(Region::SA, 1).is_none());
}

#[test]
fn region_index_is_kept_by_lobby() {
    let mut s = store();
    s.create_region_lobby(1, Region::MEA);
    s.create_region_lobby(2, Region::AS);
    assert_eq!(s.get_region_lobby(1), Some(Region::MEA));
    assert_eq!(s.get_region_lobby(2), Some(Region::AS));
    assert_eq!(s.get_region_lobby(3), None);
    assert_eq!(s.delete_region_lobby(1), Ok(()));
    assert_eq!(s.get_region_lobby(1), None);
    assert_eq!(s.delete_region_lobby(1), Err(GameSyncError::LobbyFindError));
    assert_eq!(s.get_region_lobby(2), Some(Region::AS));
}

#[test]
fn public_lobbies_of_a_region_are_listed_once() {
    let mut s = store();
    s.create_lobby(Region::EU, 1, lobby(1, Region::EU, Visibility::Public, &[10]));
    s.create_lobby(Region::EU, 2, lobby(2, Region::EU, Visibility::Private, &[20]));
    s.create_lobby(Region::EU, 3, lobby(3, Region::EU, Visibility::Public, &[30]));
    s.create_lobby(Region::AU, 4, lobby(4, Region::AU, Visibility::Public, &[40]));
    let mut ids: Vec<u128> = s.get_region_lobbies(Region::EU).iter().map(|l| l.lobby_id).collect();
    ids.sort();
    assert_eq!(ids, vec![1, 3]);
    let ids: Vec<u128> = s.get_region_lobbies(Region::AU).iter().map(|l| l.lobby_id).collect();
    assert_eq!(ids, vec![4]);
    assert_eq!(s.get_region_lobbies(Region::NA).len(), 0);
}

#[test]
fn average_rating_is_the_mean_rounded_down() {
    let mut s = store();
    s.add_player(10, Player { player_id: 10, rating: 3 });
    s.add_player(11, Player { player_id: 11, rating: 4 });
    s.add_player(12, Player { player_id: 12, rating: usize::MAX });
    s.add_player(13, Player { player_id: 13, rating: usize::MAX });
    s.create_lobby(Region::NA, 1, lobby(1, Region::NA, Visibility::Public, &[10, 11]));
    s.create_lobby(Region::NA, 2, lobby(2, Region::NA, Visibility::Public, &[12, 13]));
    s.create_lobby(Region::NA, 3, lobby(3, Region::NA, Visibility::Public, &[10, 99, 11]));
    let mut empty = lobby(4, Region::NA, Visibility::Public, &[10]);
    empty.player_list.clear();
    s.create_lobby(Region::NA, 4, empty);
    assert_eq!(s.get_lobby_average_rating(Region::NA, 1), 3);
    assert_eq!(s.get_lobby_average_rating(Region::NA, 2), usize::MAX);
    assert_eq!(s.get_lobby_average_rating(Region::NA, 3), 2);
    assert_eq!(s.get_lobby_average_rating(Region::NA, 4), 0);
    assert_eq!(s.get_lobby_average_rating(Region::NA, 5), 0);
    assert_eq!(s.get_lobby_average_rating(Region::EU, 1), 0);
}

#[test]
fn casual_queues_are_kept_by_region() {
    let mut s = store();
    s.add_casual_lobby(Region::NA, lobby(1, Region::NA, Visibility::Public, &[10]));
    s.add_casual_lobby(Region::EU, lobby(2, Region::EU, Visibility::Public, &[20]));
    s.add_casual_lobby(Region::NA, lobby(3, Region::NA, Visibility::Public, &[30]));
    s.add_casual_lobby(Region::NA, lobby(4, Region::NA, Visibility::Public, &[40]));
    let ids = |s: &DataStore, r: Region| -> Vec<u128> {
        s.get_casual_lobbies(r).unwrap().iter().map(|l| l.lobby_id).collect()
    };
    assert_eq!(ids(&s, Region::NA), vec![1, 3, 4]);
    assert_eq!(ids(&s, Region::EU), vec![2]);
    assert!(s.check_casual_lobby(Region::EU, 2).is_none());
    assert!(s.check_casual_lobby(Region::NA, 2).is_none());
    s.remove_casual_lobby(Region::NA, 3);
    assert_eq!(ids(&s, Region::NA), vec![1, 4]);
    let (a, b) = s.check_casual_lobby(Region::NA, 4).unwrap();
    assert_eq!((a.lobby_id, b.lobby_id), (4, 1));
    assert_eq!(ids(&s, Region::NA), Vec::<u128>::new());
    assert_eq!(ids(&s, Region::EU), vec![2]);
}

#[test]
fn competitive_queues_are_ordered_by_the_average_at_queueing() {
    let mut s = store();
    for (player, rating) in [(10u128, 900usize), (20, 1000), (30, 1040), (40, 1000)] {
        s.add_player(player, Player { player_id: player, rating });
    }
    for (id, player) in [(1u128, 10u128), (2, 20), (3, 30), (4, 40)] {
        s.create_lobby(Region::AS, id, lobby(id, Region::AS, Visibility::Public, &[player]));
    }
    for id in [3u128, 2, 1, 4] {
        let l = s.get_lobby(Region::AS, id).unwrap();
        s.add_competitive_lobby(Region::AS, l);
    }
    let ids = |s: &DataStore| -> Vec<u128> {
        s.get_competitive_lobbies(Region::AS).unwrap().iter().map(|l| l.lobby_id).collect()
    };
    assert_eq!(ids(&s), vec![1, 2, 4, 3]);
    assert!(s.check_competitive_lobby(Region::AS, 1, 99).is_none());
    assert!(s.check_competitive_lobby(Region::EU, 1, 1000).is_none());
    assert_eq!(ids(&s), vec![1, 2, 4, 3]);
    let (a, b) = s.check_competitive_lobby(Region::AS, 3, 40).unwrap();
    assert_eq!((a.lobby_id, b.lobby_id), (3, 2));
    assert_eq!(ids(&s), vec![1, 4]);
    s.remove_competitive_lobby(Region::AS, 1);
    s.remove_competitive_lobby(Region::AS, 9);
    assert_eq!(ids(&s), vec![4]);
}
