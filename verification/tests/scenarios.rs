use gamesync::error::GameSyncError;
use gamesync::events::{Action, ClientEvent, ServerEvent};
use gamesync::lobby::{GameMode, Lobby, LobbyParams, LobbyStatus, Player, Region, Visibility};
use gamesync::networking::Websocket;
use gamesync::store::ServerParams;

fn params(name: &str, mode: GameMode) -> LobbyParams {
    LobbyParams { name: name.to_string(), visibility: Visibility::Public, region: Region::NA, mode }
}

fn server(size: usize) -> Websocket {
    Websocket::new(ServerParams { player_count: size })
}

fn connect(ws: &mut Websocket, endpoint: u128) -> u128 {
    ws.handle_new_connections(endpoint).unwrap();
    ws.store().get_user(endpoint).unwrap()
}

fn sends(actions: &[Action]) -> Vec<(u128, String)> {
    let mut r = Vec::new();
    for a in actions {
        if let Action::Send { endpoint, event } = a {
            r.push((*endpoint, format!("{:?}", event)));
        }
    }
    r
}

fn show(event: ServerEvent) -> String {
    format!("{:?}", event)
}

fn create(ws: &mut Websocket, endpoint: u128, mode: GameMode) -> Lobby {
    let created = ws.handle_messages(endpoint, ClientEvent::CreateLobby(params("L", mode))).unwrap();
    match &created[0] {
        Action::Send { event: ServerEvent::LobbyCreated(l), .. } => l.clone(),
        other => panic!("unexpected action {:?}", other),
    }
}

/// Two connected players at `e1` and `e2` in one full lobby led by the first.
fn pair(ws: &mut Websocket, e1: u128, e2: u128, mode: GameMode) -> (u128, u128, u128) {
    let p1 = connect(ws, e1);
    let p2 = connect(ws, e2);
    let lobby = create(ws, e1, mode);
    ws.handle_messages(e2, ClientEvent::JoinLobby(lobby.lobby_id)).unwrap();
    (p1, p2, lobby.lobby_id)
}

fn stored(ws: &Websocket, id: u128) -> Lobby {
    ws.store().get_lobby(Region::NA, id).unwrap()
}

#[test]
fn create_then_join_notifies_both_members() {
    let mut ws = server(2);
    let p1 = connect(&mut ws, 1);
    let p2 = connect(&mut ws, 2);
    let created = ws.handle_messages(1, ClientEvent::CreateLobby(params("L", GameMode::Casual))).unwrap();
    assert_eq!(created.len(), 1);
    let lobby = match &created[0] {
        Action::Send { endpoint, event: ServerEvent::LobbyCreated(l) } => {
            assert_eq!(*endpoint, 1);
            l.clone()
        }
        other => panic!("unexpected action {:?}", other),
    };
    assert_eq!(lobby.leader, p1);
    assert_eq!(lobby.player_list, vec![p1]);
    assert_eq!(lobby.status, LobbyStatus::Idle);
    assert_eq!(lobby.queue_threshold, 0);
    assert_eq!(lobby.params.name, "L");
    assert_eq!(lobby.params.visibility, Visibility::Public);
    assert_eq!(lobby.params.region, Region::NA);
    assert_eq!(lobby.params.mode, GameMode::Casual);
    let joined = ws.handle_messages(2, ClientEvent::JoinLobby(lobby.lobby_id)).unwrap();
    let expected = show(ServerEvent::LobbyJoined(p2, lobby.lobby_id));
    assert_eq!(sends(&joined), vec![(1, expected.clone()), (2, expected)]);
    assert_eq!(stored(&ws, lobby.lobby_id).player_list, vec![p1, p2]);
    assert_eq!(ws.store().get_player_info(p1).unwrap().1, Some(lobby.lobby_id));
    assert_eq!(ws.store().get_player_info(p2).unwrap().1, Some(lobby.lobby_id));
    assert_eq!(ws.store().get_region_lobby(lobby.lobby_id), Some(Region::NA));
}

#[test]
fn casual_match_tells_all_four_of_the_other_lobby() {
    let mut ws = server(2);
    let (_, _, l1) = pair(&mut ws, 1, 2, GameMode::Casual);
    let queued = ws.handle_messages(1, ClientEvent::QueueLobby(l1)).unwrap();
    let expected = show(ServerEvent::LobbyQueued(l1));
    assert_eq!(sends(&queued), vec![(1, expected.clone()), (2, expected)]);
    assert_eq!(stored(&ws, l1).status, LobbyStatus::Queueing);
    let alone = ws.handle_messages(1, ClientEvent::CheckMatch(l1, None)).unwrap();
    assert_eq!(sends(&alone), vec![(1, show(ServerEvent::MatchNotFound))]);
    let (_, _, l2) = pair(&mut ws, 3, 4, GameMode::Casual);
    ws.handle_messages(3, ClientEvent::QueueLobby(l2)).unwrap();
    assert_eq!(ws.store().get_casual_lobbies(Region::NA).unwrap().len(), 2);
    let found = ws.handle_messages(1, ClientEvent::CheckMatch(l1, None)).unwrap();
    let first = stored(&ws, l1);
    let second = stored(&ws, l2);
    assert_eq!(first.status, LobbyStatus::Ingame);
    assert_eq!(second.status, LobbyStatus::Ingame);
    let to_first = show(ServerEvent::MatchFound(second));
    let to_second = show(ServerEvent::MatchFound(first));
    assert_eq!(
        sends(&found),
        vec![(1, to_first.clone()), (2, to_first), (3, to_second.clone()), (4, to_second)]
    );
    assert_eq!(ws.store().get_casual_lobbies(Region::NA).unwrap().len(), 0);
}

fn rate(ws: &mut Websocket, endpoint: u128, rating: usize) {
    let id = ws.store().get_user(endpoint).unwrap();
    ws.handle_messages(endpoint, ClientEvent::EditPlayer(Player { player_id: id, rating })).unwrap();
}

/// Two full competitive lobbies, queued: the first rated `r1`, the second `r2`.
fn rated_pair(ws: &mut Websocket, r1: usize, r2: usize) -> (u128, u128) {
    let (_, _, a) = pair(ws, 1, 2, GameMode::Competitive);
    let (_, _, b) = pair(ws, 3, 4, GameMode::Competitive);
    rate(ws, 1, r1);
    rate(ws, 2, r1);
    rate(ws, 3, r2);
    rate(ws, 4, r2);
    ws.handle_messages(1, ClientEvent::QueueLobby(a)).unwrap();
    ws.handle_messages(3, ClientEvent::QueueLobby(b)).unwrap();
    (a, b)
}

#[test]
fn competitive_match_needs_the_other_rating_inside_the_window() {
    let mut ws = server(2);
    let (a, b) = rated_pair(&mut ws, 1000, 1070);
    assert_eq!(ws.store().get_lobby_average_rating(Region::NA, a), 1000);
    assert_eq!(ws.store().get_lobby_average_rating(Region::NA, b), 1070);
    let r = ws.handle_messages(1, ClientEvent::CheckMatch(a, Some(50))).unwrap();
    assert_eq!(sends(&r), vec![(1, show(ServerEvent::MatchNotFound))]);
    assert_eq!(stored(&ws, a).status, LobbyStatus::Queueing);
    assert_eq!(stored(&ws, a).queue_threshold, 0);
    let r = ws.handle_messages(1, ClientEvent::CheckMatch(a, Some(69))).unwrap();
    assert_eq!(sends(&r), vec![(1, show(ServerEvent::MatchNotFound))]);
    let r = ws.handle_messages(1, ClientEvent::CheckMatch(a, Some(70))).unwrap();
    assert_eq!(r.len(), 4);
    assert_eq!(stored(&ws, a).status, LobbyStatus::Ingame);
    assert_eq!(stored(&ws, a).queue_threshold, 70);
    assert_eq!(stored(&ws, b).status, LobbyStatus::Ingame);
    assert_eq!(stored(&ws, b).queue_threshold, 0);
    assert_eq!(ws.store().get_competitive_lobbies(Region::NA).unwrap().len(), 0);
}

#[test]
fn competitive_match_at_the_edge_of_the_window() {
    let mut ws = server(2);
    let (a, b) = rated_pair(&mut ws, 1000, 1050);
    let r = ws.handle_messages(3, ClientEvent::CheckMatch(b, Some(49))).unwrap();
    assert_eq!(sends(&r), vec![(3, show(ServerEvent::MatchNotFound))]);
    let r = ws.handle_messages(1, ClientEvent::CheckMatch(a, Some(50))).unwrap();
    let first = stored(&ws, a);
    let second = stored(&ws, b);
    assert_eq!(first.status, LobbyStatus::Ingame);
    let to_first = show(ServerEvent::MatchFound(second));
    let to_second = show(ServerEvent::MatchFound(first));
    assert_eq!(
        sends(&r),
        vec![(1, to_first.clone()), (2, to_first), (3, to_second.clone()), (4, to_second)]
    );
}

#[test]
fn leader_of_queueing_lobby_disconnects() {
    let mut ws = server(2);
    let (p1, p2, l) = pair(&mut ws, 1, 2, GameMode::Casual);
    ws.handle_messages(1, ClientEvent::QueueLobby(l)).unwrap();
    let r = ws.clean_up_player(1).unwrap();
    assert_eq!(
        sends(&r),
        vec![(2, show(ServerEvent::LobbyLeft(p2, l))), (2, show(ServerEvent::LobbyDeleted(l)))]
    );
    assert_eq!(ws.store().get_casual_lobbies(Region::NA).unwrap().len(), 0);
    assert!(ws.store().get_lobby(Region::NA, l).is_none());
    assert_eq!(ws.store().get_region_lobby(l), None);
    assert_eq!(ws.store().get_player_info(p2).unwrap().1, None);
    assert!(ws.store().get_player_info(p1).is_none());
    assert_eq!(ws.store().get_user(1), None);
    assert_eq!(ws.store().get_user_endpoint(p1), None);
}

#[test]
fn member_of_queueing_lobby_disconnects() {
    let mut ws = server(2);
    let (p1, p2, l) = pair(&mut ws, 1, 2, GameMode::Competitive);
    ws.handle_messages(1, ClientEvent::QueueLobby(l)).unwrap();
    let r = ws.clean_up_player(2).unwrap();
    assert_eq!(
        sends(&r),
        vec![(1, show(ServerEvent::QueueStopped(l))), (1, show(ServerEvent::LobbyLeft(p2, l)))]
    );
    assert_eq!(ws.store().get_competitive_lobbies(Region::NA).unwrap().len(), 0);
    let lobby = stored(&ws, l);
    assert_eq!(lobby.status, LobbyStatus::Idle);
    assert_eq!(lobby.player_list, vec![p1]);
    assert!(ws.store().get_player_info(p2).is_none());
    assert_eq!(ws.store().get_all_user_endpoints(), vec![1]);
}

#[test]
fn disconnect_without_lobby_or_player() {
    let mut ws = server(2);
    let p = connect(&mut ws, 1);
    assert_eq!(ws.clean_up_player(7).unwrap().len(), 0);
    assert!(ws.store().get_player_info(p).is_some());
    assert_eq!(ws.clean_up_player(1).unwrap().len(), 0);
    assert!(ws.store().get_player_info(p).is_none());
    assert_eq!(ws.store().get_user(1), None);
}

#[test]
fn edit_player_while_ingame_is_turned_down() {
    let mut ws = server(2);
    let (_, _, a) = pair(&mut ws, 1, 2, GameMode::Casual);
    let (_, _, b) = pair(&mut ws, 3, 4, GameMode::Casual);
    rate(&mut ws, 2, 7);
    ws.handle_messages(1, ClientEvent::QueueLobby(a)).unwrap();
    let p2 = ws.store().get_user(2).unwrap();
    let r = ws.handle_messages(2, ClientEvent::EditPlayer(Player { player_id: p2, rating: 9 }));
    assert_eq!(r.unwrap_err(), GameSyncError::PlayerEditError);
    ws.handle_messages(3, ClientEvent::QueueLobby(b)).unwrap();
    ws.handle_messages(1, ClientEvent::CheckMatch(a, None)).unwrap();
    assert_eq!(stored(&ws, a).status, LobbyStatus::Ingame);
    let r = ws.handle_messages(2, ClientEvent::EditPlayer(Player { player_id: p2, rating: 9 }));
    assert_eq!(r.unwrap_err(), GameSyncError::PlayerEditError);
    assert_eq!(ws.store().get_player_info(p2).unwrap().0.rating, 7);
}

#[test]
fn edit_player_changes_the_sender_only() {
    let mut ws = server(2);
    let p1 = connect(&mut ws, 1);
    let p2 = connect(&mut ws, 2);
    let r = ws.handle_messages(1, ClientEvent::EditPlayer(Player { player_id: p2, rating: 12 })).unwrap();
    assert_eq!(sends(&r), vec![(1, show(ServerEvent::PlayerEdited(p1)))]);
    assert_eq!(ws.store().get_player_info(p1).unwrap().0, Player { player_id: p1, rating: 12 });
    assert_eq!(ws.store().get_player_info(p2).unwrap().0, Player { player_id: p2, rating: 0 });
}

#[test]
fn delete_lobby_while_queueing_is_turned_down() {
    let mut ws = server(2);
    let (_, _, l) = pair(&mut ws, 1, 2, GameMode::Casual);
    ws.handle_messages(1, ClientEvent::QueueLobby(l)).unwrap();
    let r = ws.handle_messages(1, ClientEvent::DeleteLobby(l));
    assert_eq!(r.unwrap_err(), GameSyncError::LobbyDeleteError);
    assert_eq!(stored(&ws, l).status, LobbyStatus::Queueing);
    assert_eq!(ws.store().get_casual_lobbies(Region::NA).unwrap().len(), 1);
}

#[test]
fn delete_lobby_dismisses_every_member() {
    let mut ws = server(2);
    let (p1, p2, l) = pair(&mut ws, 1, 2, GameMode::Casual);
    let r = ws.handle_messages(2, ClientEvent::DeleteLobby(l));
    assert_eq!(r.unwrap_err(), GameSyncError::LobbyOwnerError);
    let r = ws.handle_messages(1, ClientEvent::DeleteLobby(l)).unwrap();
    assert_eq!(
        sends(&r),
        vec![
            (1, show(ServerEvent::LobbyLeft(p1, l))),
            (1, show(ServerEvent::LobbyDeleted(l))),
            (2, show(ServerEvent::LobbyLeft(p2, l))),
            (2, show(ServerEvent::LobbyDeleted(l))),
        ]
    );
    assert!(ws.store().get_lobby(Region::NA, l).is_none());
    assert_eq!(ws.store().get_player_info(p1).unwrap().1, None);
    assert_eq!(ws.store().get_player_info(p2).unwrap().1, None);
    assert_eq!(ws.handle_messages(1, ClientEvent::DeleteLobby(l)).unwrap_err(), GameSyncError::LobbyFindError);
}

#[test]
fn join_then_leave_restores_the_lobby() {
    let mut ws = server(3);
    let (p1, p2, l) = pair(&mut ws, 1, 2, GameMode::Casual);
    let p3 = connect(&mut ws, 3);
    let before = format!("{:?}", stored(&ws, l));
    ws.handle_messages(3, ClientEvent::JoinLobby(l)).unwrap();
    assert_eq!(stored(&ws, l).player_list, vec![p1, p2, p3]);
    let r = ws.handle_messages(3, ClientEvent::LeaveLobby(l)).unwrap();
    let left = show(ServerEvent::LobbyLeft(p3, l));
    assert_eq!(sends(&r), vec![(3, left.clone()), (1, left.clone()), (2, left)]);
    assert_eq!(format!("{:?}", stored(&ws, l)), before);
    assert_eq!(ws.store().get_player_info(p3).unwrap(), (Player { player_id: p3, rating: 0 }, None));
}

#[test]
fn leader_leaving_destroys_the_lobby() {
    let mut ws = server(2);
    let (p1, p2, l) = pair(&mut ws, 1, 2, GameMode::Casual);
    ws.handle_messages(1, ClientEvent::QueueLobby(l)).unwrap();
    let r = ws.handle_messages(1, ClientEvent::LeaveLobby(l)).unwrap();
    assert_eq!(
        sends(&r),
        vec![
            (1, show(ServerEvent::LobbyLeft(p1, l))),
            (1, show(ServerEvent::LobbyDeleted(l))),
            (2, show(ServerEvent::LobbyLeft(p2, l))),
            (2, show(ServerEvent::LobbyDeleted(l))),
        ]
    );
    assert!(ws.store().get_lobby(Region::NA, l).is_none());
    assert_eq!(ws.store().get_casual_lobbies(Region::NA).unwrap().len(), 0);
    assert_eq!(ws.store().get_player_info(p1).unwrap().1, None);
    assert_eq!(ws.store().get_player_info(p2).unwrap().1, None);
}

#[test]
fn member_leaving_a_queueing_lobby_stops_the_queue() {
    let mut ws = server(2);
    let (_, p2, l) = pair(&mut ws, 1, 2, GameMode::Casual);
    ws.handle_messages(1, ClientEvent::QueueLobby(l)).unwrap();
    let r = ws.handle_messages(2, ClientEvent::LeaveLobby(l)).unwrap();
    assert_eq!(
        sends(&r),
        vec![
            (2, show(ServerEvent::LobbyLeft(p2, l))),
            (1, show(ServerEvent::QueueStopped(l))),
            (1, show(ServerEvent::LobbyLeft(p2, l))),
        ]
    );
    assert_eq!(stored(&ws, l).status, LobbyStatus::Idle);
    assert_eq!(ws.store().get_casual_lobbies(Region::NA).unwrap().len(), 0);
}

#[test]
fn leave_by_a_stranger_is_turned_down() {
    let mut ws = server(2);
    let (_, _, l) = pair(&mut ws, 1, 2, GameMode::Casual);
    connect(&mut ws, 3);
    assert_eq!(ws.handle_messages(3, ClientEvent::LeaveLobby(l)).unwrap_err(), GameSyncError::LobbyInviteError);
    assert_eq!(ws.handle_messages(3, ClientEvent::LeaveLobby(99)).unwrap_err(), GameSyncError::LobbyFindError);
}

#[test]
fn stop_queue_twice() {
    let mut ws = server(2);
    let (_, _, l) = pair(&mut ws, 1, 2, GameMode::Competitive);
    assert_eq!(ws.handle_messages(1, ClientEvent::StopQueue(l)).unwrap_err(), GameSyncError::LobbyStopError);
    ws.handle_messages(1, ClientEvent::QueueLobby(l)).unwrap();
    assert_eq!(ws.handle_messages(2, ClientEvent::StopQueue(l)).unwrap_err(), GameSyncError::LobbyOwnerError);
    let r = ws.handle_messages(1, ClientEvent::StopQueue(l)).unwrap();
    let stopped = show(ServerEvent::QueueStopped(l));
    assert_eq!(sends(&r), vec![(1, stopped.clone()), (2, stopped)]);
    assert_eq!(stored(&ws, l).status, LobbyStatus::Idle);
    assert_eq!(ws.store().get_competitive_lobbies(Region::NA).unwrap().len(), 0);
    let before = format!("{:?}", stored(&ws, l));
    assert_eq!(ws.handle_messages(1, ClientEvent::StopQueue(l)).unwrap_err(), GameSyncError::LobbyStopError);
    assert_eq!(format!("{:?}", stored(&ws, l)), before);
}

#[test]
fn queries_change_nothing() {
    let mut ws = server(2);
    let (_, _, l) = pair(&mut ws, 1, 2, GameMode::Casual);
    let before = format!("{:?}", stored(&ws, l));
    let info = ws.handle_messages(2, ClientEvent::GetLobbyInfo(l)).unwrap();
    assert_eq!(sends(&info), vec![(2, show(ServerEvent::LobbyInfo(stored(&ws, l))))]);
    let listed = ws.handle_messages(2, ClientEvent::GetPublicLobbies(Region::NA)).unwrap();
    assert_eq!(sends(&listed), vec![(2, show(ServerEvent::PublicLobbies(vec![stored(&ws, l)])))]);
    let none = ws.handle_messages(2, ClientEvent::GetPublicLobbies(Region::EU)).unwrap();
    assert_eq!(sends(&none), vec![(2, show(ServerEvent::PublicLobbies(vec![])))]);
    assert_eq!(format!("{:?}", stored(&ws, l)), before);
    assert_eq!(ws.handle_messages(2, ClientEvent::GetLobbyInfo(5)).unwrap_err(), GameSyncError::LobbyFindError);
}

#[test]
fn private_lobbies_are_not_listed() {
    let mut ws = server(2);
    connect(&mut ws, 1);
    let hidden = LobbyParams {
        name: "H".to_string(),
        visibility: Visibility::Private,
        region: Region::AU,
        mode: GameMode::Casual,
    };
    ws.handle_messages(1, ClientEvent::CreateLobby(hidden)).unwrap();
    assert_eq!(ws.store().get_region_lobbies(Region::AU).len(), 0);
    let listed = ws.handle_messages(1, ClientEvent::GetPublicLobbies(Region::AU)).unwrap();
    assert_eq!(sends(&listed), vec![(1, show(ServerEvent::PublicLobbies(vec![])))]);
}

#[test]
fn leave_game_returns_the_lobby_to_idle() {
    let mut ws = server(2);
    let (_, _, a) = pair(&mut ws, 1, 2, GameMode::Casual);
    let (_, _, b) = pair(&mut ws, 3, 4, GameMode::Casual);
    assert_eq!(ws.handle_messages(1, ClientEvent::LeaveGameAsLobby(a)).unwrap_err(), GameSyncError::LeaveGameError);
    ws.handle_messages(1, ClientEvent::QueueLobby(a)).unwrap();
    ws.handle_messages(3, ClientEvent::QueueLobby(b)).unwrap();
    ws.handle_messages(3, ClientEvent::CheckMatch(b, None)).unwrap();
    assert_eq!(ws.handle_messages(2, ClientEvent::LeaveGameAsLobby(a)).unwrap_err(), GameSyncError::LobbyOwnerError);
    let r = ws.handle_messages(1, ClientEvent::LeaveGameAsLobby(a)).unwrap();
    let left = show(ServerEvent::LeftGame(a));
    assert_eq!(sends(&r), vec![(1, left.clone()), (2, left)]);
    assert_eq!(stored(&ws, a).status, LobbyStatus::Idle);
    assert_eq!(stored(&ws, b).status, LobbyStatus::Ingame);
}

#[test]
fn queue_lobby_is_for_full_idle_lobbies_of_their_leader() {
    let mut ws = server(2);
    let p1 = connect(&mut ws, 1);
    connect(&mut ws, 2);
    let l = create(&mut ws, 1, GameMode::Casual).lobby_id;
    assert_eq!(ws.handle_messages(1, ClientEvent::QueueLobby(l)).unwrap_err(), GameSyncError::LobbySizeError);
    assert_eq!(ws.handle_messages(1, ClientEvent::CheckMatch(l, None)).unwrap_err(), GameSyncError::LobbyCheckError);
    ws.handle_messages(2, ClientEvent::JoinLobby(l)).unwrap();
    assert_eq!(ws.handle_messages(2, ClientEvent::QueueLobby(l)).unwrap_err(), GameSyncError::LobbyOwnerError);
    assert_eq!(ws.handle_messages(2, ClientEvent::CheckMatch(l, None)).unwrap_err(), GameSyncError::LobbyOwnerError);
    ws.handle_messages(1, ClientEvent::QueueLobby(l)).unwrap();
    assert_eq!(ws.handle_messages(1, ClientEvent::QueueLobby(l)).unwrap_err(), GameSyncError::LobbyQueueError);
    assert_eq!(ws.handle_messages(1, ClientEvent::QueueLobby(77)).unwrap_err(), GameSyncError::LobbyFindError);
    assert_eq!(stored(&ws, l).leader, p1);
}

#[test]
fn join_and_create_are_for_players_without_a_lobby() {
    let mut ws = server(2);
    let (_, _, l) = pair(&mut ws, 1, 2, GameMode::Casual);
    connect(&mut ws, 3);
    assert_eq!(ws.handle_messages(3, ClientEvent::JoinLobby(l)).unwrap_err(), GameSyncError::LobbyFullError);
    assert_eq!(ws.handle_messages(3, ClientEvent::JoinLobby(l + 1)).unwrap_err(), GameSyncError::LobbyFindError);
    assert_eq!(ws.handle_messages(2, ClientEvent::JoinLobby(l)).unwrap_err(), GameSyncError::LobbyJoinError);
    let again = ws.handle_messages(2, ClientEvent::CreateLobby(params("M", GameMode::Casual)));
    assert_eq!(again.unwrap_err(), GameSyncError::LobbyCreateError);
    assert_eq!(ws.join_lobby(12345, l).unwrap_err(), GameSyncError::PlayerFindError);
}

#[test]
fn create_lobby_with_a_taken_identifier_is_turned_down() {
    let mut ws = server(2);
    let p1 = connect(&mut ws, 1);
    let p2 = connect(&mut ws, 2);
    let r = ws.create_lobby_with(p1, &params("A", GameMode::Casual), 40).unwrap();
    assert_eq!(r.len(), 1);
    assert_eq!(stored(&ws, 40).lobby_id, 40);
    let r = ws.create_lobby_with(p2, &params("B", GameMode::Casual), 40);
    assert_eq!(r.unwrap_err(), GameSyncError::LobbyCreateError);
    assert_eq!(stored(&ws, 40).params.name, "A");
    assert_eq!(ws.store().get_player_info(p2).unwrap().1, None);
}

#[test]
fn messages_and_invitations_need_membership() {
    let mut ws = server(2);
    let (p1, p2, l) = pair(&mut ws, 1, 2, GameMode::Casual);
    let p3 = connect(&mut ws, 3);
    let other = create(&mut ws, 3, GameMode::Casual).lobby_id;
    let said = ws.handle_messages(2, ClientEvent::MessageLobby(l, "hi".to_string())).unwrap();
    let heard = show(ServerEvent::LobbyMessage(p2, "hi".to_string()));
    assert_eq!(sends(&said), vec![(1, heard.clone()), (2, heard)]);
    let r = ws.handle_messages(2, ClientEvent::MessageLobby(other, "hi".to_string()));
    assert_eq!(r.unwrap_err(), GameSyncError::LobbyMessageError);
    let r = ws.handle_messages(2, ClientEvent::InviteLobby(other, p1));
    assert_eq!(r.unwrap_err(), GameSyncError::LobbyCurInviteError);
    let invited = ws.handle_messages(3, ClientEvent::InviteLobby(other, p1)).unwrap();
    assert_eq!(sends(&invited), vec![(1, show(ServerEvent::LobbyInvited(other)))]);
    assert_eq!(ws.handle_messages(3, ClientEvent::InviteLobby(other, 5)).unwrap_err(), GameSyncError::SendError);
    connect(&mut ws, 4);
    let r = ws.handle_messages(4, ClientEvent::MessageLobby(l, "hi".to_string()));
    assert_eq!(r.unwrap_err(), GameSyncError::LobbyPlayerError);
    assert_eq!(ws.handle_messages(4, ClientEvent::InviteLobby(l, p3)).unwrap_err(), GameSyncError::LobbyInviteError);
    assert_eq!(ws.edit_player(999, Player { player_id: 999, rating: 1 }).unwrap_err(), GameSyncError::PlayerFindError);
}

#[test]
fn unknown_endpoint_is_turned_down() {
    let mut ws = server(2);
    let r = ws.handle_messages(9, ClientEvent::JoinLobby(5));
    assert_eq!(r.unwrap_err(), GameSyncError::UserNotFound);
}

#[test]
fn connection_greets_the_newcomer_then_tells_the_others() {
    let mut ws = server(2);
    let first = ws.handle_new_connections(10).unwrap();
    let p1 = ws.store().get_user(10).unwrap();
    assert_eq!(ws.store().get_user_endpoint(p1), Some(10));
    assert_eq!(ws.store().get_player_info(p1).unwrap(), (Player { player_id: p1, rating: 0 }, None));
    assert_eq!(first.len(), 2);
    let text = match &first[0] {
        Action::Send { endpoint: 10, event: ServerEvent::SelfPlayer(t) } => t.clone(),
        other => panic!("unexpected action {:?}", other),
    };
    assert!(matches!(first[1], Action::Wait { millis: 100 }));
    assert_eq!(text.len(), 36);
    assert_eq!(text, format!("{:08x}-{:04x}-{:04x}-{:04x}-{:012x}",
        p1 >> 96, (p1 >> 80) & 0xffff, (p1 >> 64) & 0xffff, (p1 >> 48) & 0xffff, p1 & 0xffff_ffff_ffff));
    assert_eq!(p1 & 0xF000_C000_0000_0000_0000, 0x4000_8000_0000_0000_0000);
    let second = ws.handle_new_connections(11).unwrap();
    let p2 = ws.store().get_user(11).unwrap();
    assert_ne!(p1, p2);
    assert_eq!(second.len(), 3);
    assert!(matches!(&second[0], Action::Send { endpoint: 11, event: ServerEvent::SelfPlayer(_) }));
    assert!(matches!(second[1], Action::Wait { millis: 100 }));
    match &second[2] {
        Action::Send { endpoint: 10, event: ServerEvent::NewPlayer(t) } => {
            assert_eq!(Some(p2), ws.store().get_user(11));
            assert_ne!(*t, text);
        }
        other => panic!("unexpected action {:?}", other),
    }
}

#[test]
fn connection_with_a_taken_endpoint_or_identifier_is_turned_down() {
    let mut ws = server(2);
    assert_eq!(ws.connect(1, 500).unwrap().len(), 2);
    assert_eq!(ws.connect(1, 501).unwrap_err(), GameSyncError::SendError);
    assert_eq!(ws.connect(2, 500).unwrap_err(), GameSyncError::SendError);
    assert_eq!(ws.handle_new_connections(1).unwrap_err(), GameSyncError::SendError);
    assert_eq!(ws.store().get_user(1), Some(500));
    assert_eq!(ws.store().get_user(2), None);
    assert_eq!(ws.store().get_all_user_endpoints(), vec![1]);
}

#[test]
fn broadcast_reaches_everyone_but_the_sender() {
    let mut ws = server(2);
    let p1 = connect(&mut ws, 1);
    connect(&mut ws, 2);
    connect(&mut ws, 3);
    let r = ws.handle_messages(1, ClientEvent::Broadcast("all".to_string())).unwrap();
    let mut got = sends(&r);
    got.sort();
    let heard = show(ServerEvent::UserMessage(p1, "all".to_string()));
    assert_eq!(got, vec![(2, heard.clone()), (3, heard)]);
}

#[test]
fn send_to_reaches_the_named_player() {
    let mut ws = server(2);
    let p1 = connect(&mut ws, 1);
    let second = ws.handle_new_connections(2).unwrap();
    let name = match &second[0] {
        Action::Send { event: ServerEvent::SelfPlayer(t), .. } => t.clone(),
        other => panic!("unexpected action {:?}", other),
    };
    let r = ws.handle_messages(1, ClientEvent::SendTo(name.clone(), "psst".to_string())).unwrap();
    assert_eq!(sends(&r), vec![(2, show(ServerEvent::UserMessage(p1, "psst".to_string())))]);
    let r = ws.handle_messages(1, ClientEvent::SendTo(name.to_uppercase().replace('-', ""), "x".to_string()));
    assert_eq!(r.unwrap().len(), 1);
    let r = ws.handle_messages(1, ClientEvent::SendTo("nobody".to_string(), "x".to_string()));
    assert_eq!(r.unwrap_err(), GameSyncError::UuidError);
    let r = ws.handle_messages(
        1,
        ClientEvent::SendTo("00000000-0000-0000-0000-000000000001".to_string(), "x".to_string()),
    );
    assert_eq!(r.unwrap_err(), GameSyncError::SendError);
}

#[test]
fn send_to_client_adds_one_action_or_fails() {
    let mut ws = server(2);
    let p1 = connect(&mut ws, 1);
    let mut out = Vec::new();
    ws.send_to_client(p1, ServerEvent::MatchNotFound, &mut out).unwrap();
    assert_eq!(sends(&out), vec![(1, show(ServerEvent::MatchNotFound))]);
    assert_eq!(ws.send_to_client(p1 ^ 1, ServerEvent::MatchNotFound, &mut out).unwrap_err(), GameSyncError::SendError);
    assert_eq!(out.len(), 1);
    ws.send_to_all_clients(5, ServerEvent::Connected(), &mut out);
    assert_eq!(out.len(), 2);
    ws.send_to_all_clients(1, ServerEvent::Connected(), &mut out);
    assert_eq!(out.len(), 2);
}

#[test]
fn competitive_queue_is_ordered_by_average_rating() {
    let mut ws = server(1);
    let mut lobbies = Vec::new();
    for (endpoint, rating) in [(1u128, 30usize), (2, 10), (3, 20), (4, 10)] {
        connect(&mut ws, endpoint);
        rate(&mut ws, endpoint, rating);
        let l = create(&mut ws, endpoint, GameMode::Competitive).lobby_id;
        ws.handle_messages(endpoint, ClientEvent::QueueLobby(l)).unwrap();
        lobbies.push(l);
    }
    let queued: Vec<u128> =
        ws.store().get_competitive_lobbies(Region::NA).unwrap().iter().map(|l| l.lobby_id).collect();
    assert_eq!(queued, vec![lobbies[1], lobbies[3], lobbies[2], lobbies[0]]);
    let ratings: Vec<usize> =
        queued.iter().map(|l| ws.store().get_lobby_average_rating(Region::NA, *l)).collect();
    assert_eq!(ratings, vec![10, 10, 20, 30]);
    assert_eq!(ws.store().get_casual_lobbies(Region::NA).unwrap().len(), 0);
    let r = ws.handle_messages(3, ClientEvent::CheckMatch(lobbies[2], Some(10))).unwrap();
    assert_eq!(r.len(), 2);
    let queued: Vec<u128> =
        ws.store().get_competitive_lobbies(Region::NA).unwrap().iter().map(|l| l.lobby_id).collect();
    assert_eq!(queued, vec![lobbies[3], lobbies[0]]);
    assert_eq!(stored(&ws, lobbies[1]).status, LobbyStatus::Ingame);
    assert_eq!(stored(&ws, lobbies[2]).status, LobbyStatus::Ingame);
    assert_eq!(stored(&ws, lobbies[3]).status, LobbyStatus::Queueing);
}

#[test]
fn endpoints_and_players_stay_bound_one_to_one() {
    let mut ws = server(2);
    let mut players = Vec::new();
    for endpoint in 1u128..=4 {
        players.push(connect(&mut ws, endpoint));
    }
    ws.clean_up_player(2).unwrap();
    connect(&mut ws, 9);
    let mut bound = ws.store().list_user_endpoints();
    bound.sort_by_key(|pair| pair.1);
    assert_eq!(bound.len(), 4);
    for (player, endpoint) in bound {
        assert_eq!(ws.store().get_user(endpoint), Some(player));
        assert_eq!(ws.store().get_user_endpoint(player), Some(endpoint));
        assert!(ws.store().get_player_info(player).is_some());
    }
    assert_eq!(ws.store().get_user(2), None);
    assert_eq!(ws.store().get_user_endpoint(players[1]), None);
}

#[test]
fn a_lobby_goes_round_its_life_cycle() {
    let mut ws = server(1);
    connect(&mut ws, 1);
    connect(&mut ws, 2);
    let a = create(&mut ws, 1, GameMode::Casual).lobby_id;
    let b = create(&mut ws, 2, GameMode::Casual).lobby_id;
    assert_eq!(stored(&ws, a).status, LobbyStatus::Idle);
    ws.handle_messages(1, ClientEvent::QueueLobby(a)).unwrap();
    assert_eq!(stored(&ws, a).status, LobbyStatus::Queueing);
    ws.handle_messages(1, ClientEvent::StopQueue(a)).unwrap();
    assert_eq!(stored(&ws, a).status, LobbyStatus::Idle);
    ws.handle_messages(1, ClientEvent::QueueLobby(a)).unwrap();
    ws.handle_messages(2, ClientEvent::QueueLobby(b)).unwrap();
    ws.handle_messages(2, ClientEvent::CheckMatch(b, Some(5))).unwrap();
    assert_eq!(stored(&ws, a).status, LobbyStatus::Ingame);
    assert_eq!(stored(&ws, b).status, LobbyStatus::Ingame);
    assert_eq!(stored(&ws, b).queue_threshold, 5);
    assert_eq!(stored(&ws, a).queue_threshold, 0);
    assert_eq!(ws.handle_messages(1, ClientEvent::QueueLobby(a)).unwrap_err(), GameSyncError::LobbyQueueError);
    assert_eq!(ws.handle_messages(1, ClientEvent::DeleteLobby(a)).unwrap_err(), GameSyncError::LobbyDeleteError);
    ws.handle_messages(1, ClientEvent::LeaveGameAsLobby(a)).unwrap();
    assert_eq!(stored(&ws, a).status, LobbyStatus::Idle);
    assert_eq!(stored(&ws, b).status, LobbyStatus::Ingame);
    ws.clean_up_player(2).unwrap();
    assert!(ws.store().get_lobby(Region::NA, b).is_none());
    assert_eq!(stored(&ws, a).status, LobbyStatus::Idle);
}
