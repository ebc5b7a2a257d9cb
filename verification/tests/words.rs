use gamesync::client::Store;
use gamesync::error::GameSyncError;
use gamesync::events::{Action, ServerEvent};
use gamesync::lobby::{copy_ids, GameMode, Lobby, LobbyParams, LobbyStatus, Region, Visibility, REGION_COUNT};
use gamesync::networking::{is_member, remove_member};
use gamesync::parse::{
    mode_from_lower, parse_mode, parse_region, parse_visibility, region_from_upper, same_text,
    visibility_from_lower,
};

#[test]
fn regions_are_read_in_any_case() {
    assert_eq!(parse_region("NA"), Ok(Region::NA));
    assert_eq!(parse_region("eu"), Ok(Region::EU));
    assert_eq!(parse_region("Sa"), Ok(Region::SA));
    assert_eq!(parse_region("mEa"), Ok(Region::MEA));
    assert_eq!(parse_region("as"), Ok(Region::AS));
    assert_eq!(parse_region("AU"), Ok(Region::AU));
    assert_eq!(parse_region("mars"), Err("'mars' is not a valid Region".to_string()));
    assert_eq!(parse_region(""), Err("'' is not a valid Region".to_string()));
    assert_eq!(parse_region(" NA"), Err("' NA' is not a valid Region".to_string()));
}

#[test]
fn visibilities_are_read_in_any_case() {
    assert_eq!(parse_visibility("private"), Ok(Visibility::Private));
    assert_eq!(parse_visibility("PUBLIC"), Ok(Visibility::Public));
    assert_eq!(parse_visibility("Hidden"), Err("'Hidden' is not a valid Visibility".to_string()));
}

#[test]
fn modes_are_read_in_any_case() {
    assert_eq!(parse_mode("Casual"), Ok(GameMode::Casual));
    assert_eq!(parse_mode("COMPETITIVE"), Ok(GameMode::Competitive));
    assert_eq!(parse_mode("ranked"), Err("'ranked' is not a valid GameMode".to_string()));
}

#[test]
fn words_are_matched_exactly_once_their_case_is_settled() {
    assert_eq!(region_from_upper("MEA", "mea"), Ok(Region::MEA));
    assert_eq!(region_from_upper("mea", "mea"), Err("'mea' is not a valid Region".to_string()));
    assert_eq!(region_from_upper("XX", "typed"), Err("'typed' is not a valid Region".to_string()));
    assert_eq!(visibility_from_lower("public", "PUBLIC"), Ok(Visibility::Public));
    assert_eq!(visibility_from_lower("PUBLIC", "PUBLIC"), Err("'PUBLIC' is not a valid Visibility".to_string()));
    assert_eq!(mode_from_lower("casual", "x"), Ok(GameMode::Casual));
    assert_eq!(mode_from_lower("Casual", "x"), Err("'x' is not a valid GameMode".to_string()));
    assert!(same_text("abc", "abc"));
    assert!(!same_text("abc", "abd"));
    assert!(!same_text("abc", "ab"));
}

#[test]
fn regions_have_their_positions() {
    let all = Region::all();
    assert_eq!(all, vec![Region::NA, Region::EU, Region::SA, Region::MEA, Region::AS, Region::AU]);
    assert_eq!(all.len(), REGION_COUNT);
    for (i, region) in all.iter().enumerate() {
        assert_eq!(region.index(), i);
    }
}

#[test]
fn errors_have_their_messages() {
    assert_eq!(GameSyncError::SendError.message(), "Failed to send socket event");
    assert_eq!(GameSyncError::LobbyFindError.message(), "Lobby not found.");
    assert_eq!(GameSyncError::LobbyFullError.message(), "Failed to join lobby. Lobby full");
    assert_eq!(GameSyncError::LobbyOwnerError.message(), "Invalid permissions. Player not lobby owner");
    assert_eq!(GameSyncError::LeaveGameError.message(), "Failed to leave game. Lobby is not currently in-game");
    assert_eq!(GameSyncError::LockError.message(), "Failed to access store");
    assert_eq!(GameSyncError::ParseError.message(), "Failed to parse event payload");
    assert_eq!(GameSyncError::SocketError.message(), "Socket error");
    assert_eq!(GameSyncError::UuidError.message(), "Failed to parse uuid");
    assert_eq!(GameSyncError::LobbyLeaveError.message(), "Failed to leave lobby. Player not part of lobby");
    assert_ne!(GameSyncError::LobbyCreateError.message(), GameSyncError::LobbyJoinError.message());
}

#[test]
fn copies_are_equal_to_their_originals() {
    let lobby = Lobby {
        lobby_id: 4,
        params: LobbyParams {
            name: "copy".to_string(),
            visibility: Visibility::Private,
            region: Region::MEA,
            mode: GameMode::Casual,
        },
        leader: 1,
        status: LobbyStatus::Ingame,
        player_list: vec![1, 2, 3],
        queue_threshold: 8,
    };
    assert_eq!(format!("{:?}", lobby.clone()), format!("{:?}", lobby));
    assert_eq!(copy_ids(&lobby.player_list), vec![1, 2, 3]);
    let event = ServerEvent::PublicLobbies(vec![lobby.clone(), lobby.clone()]);
    assert_eq!(format!("{:?}", event.clone()), format!("{:?}", event));
    let event = ServerEvent::UserMessage(3, "m".to_string());
    assert_eq!(format!("{:?}", event.clone()), format!("{:?}", event));
    let action = Action::Wait { millis: 3 };
    assert!(matches!(action, Action::Wait { millis: 3 }));
}

#[test]
fn members_are_found_and_removed() {
    let list = vec![5u128, 6, 7, 6];
    assert!(is_member(&list, 7));
    assert!(!is_member(&list, 8));
    assert_eq!(remove_member(&list, 6), vec![5, 7]);
    assert_eq!(remove_member(&list, 9), list);
    assert_eq!(remove_member(&Vec::new(), 9), Vec::<u128>::new());
}

#[test]
fn client_learns_its_identifier() {
    let mut store = Store::new();
    assert!(!store.is_connected);
    assert_eq!(store.get_player_id(), 0);
    assert_eq!(store.on_event(&ServerEvent::Connected()), Ok(()));
    assert!(store.is_connected);
    assert_eq!(store.on_event(&ServerEvent::SelfPlayer("67e55044-10b1-426f-9247-bb680e5fe0c8".to_string())), Ok(()));
    assert_eq!(store.get_player_id(), 0x67e55044_10b1_426f_9247_bb680e5fe0c8);
    assert_eq!(store.on_event(&ServerEvent::SelfPlayer("not an id".to_string())), Err(GameSyncError::UuidError));
    assert_eq!(store.get_player_id(), 0x67e55044_10b1_426f_9247_bb680e5fe0c8);
    assert_eq!(store.on_event(&ServerEvent::NewPlayer("00000000-0000-0000-0000-000000000009".to_string())), Ok(()));
    assert_eq!(store.on_event(&ServerEvent::MatchNotFound), Ok(()));
    assert_eq!(store.get_player_id(), 0x67e55044_10b1_426f_9247_bb680e5fe0c8);
    assert!(store.is_connected);
    assert_eq!(store.set_player_id("00000000-0000-0000-0000-00000000000a".to_string()), Ok(()));
    assert_eq!(store.get_player_id(), 10);
    assert_eq!(store.set_player_id("zz".to_string()), Err(GameSyncError::UuidError));
    assert_eq!(store.get_player_id(), 10);
}
