//! What each request does, stated over the value of the store: whether it is
//! accepted, the store it leaves, and the actions it asks of the transport.

use crate::error::GameSyncError;
use crate::events::{ActionView, EventView};
use crate::ident::{uuid_parsed, uuid_text_of};
use crate::lobby::{
    GameMode, LobbyID, LobbyParamsView, LobbyStatus, LobbyView, Player, PlayerID, Region,
};
use crate::queue::{
    casual_pair, competitive_pair, first_where, has_id, rated_above, rated_has_id, remove_at,
    remove_pair, RatedView,
};
use crate::store::{average_rating, EndpointID, PlayerInfo, StoreView};
use vstd::prelude::*;

verus! {

/// How a request ends.
#[verifier::ext_equal]
pub struct Outcome {
    /// Whether the request was accepted, or why not.
    pub result: Result<(), GameSyncError>,
    /// The store after the request.
    pub state: StoreView,
    /// The actions asked of the transport, in order.
    pub actions: Seq<ActionView>,
}

/// The outcome of a request that is turned down: nothing changes and
/// nothing is sent.
pub open spec fn rejected(s: StoreView, error: GameSyncError) -> Outcome {
    Outcome { result: Err(error), state: s, actions: Seq::empty() }
}

/// The outcome of a request that is accepted.
pub open spec fn accepted(state: StoreView, actions: Seq<ActionView>) -> Outcome {
    Outcome { result: Ok(()), state: state, actions: actions }
}

/// The milliseconds between telling a new client its identifier and telling
/// the others of it.
pub const GREETING_PAUSE_MS: u64 = 100;

/// The lobby with the identifier: the one in the bucket of the region that
/// the index gives for it.
pub open spec fn find_lobby(s: StoreView, id: LobbyID) -> Option<LobbyView> {
    if s.lobby_regions.contains_key(id) && s.lobbies.contains_key((s.lobby_regions[id], id)) {
        Some(s.lobbies[(s.lobby_regions[id], id)])
    } else {
        None
    }
}

/// The notifications `events`, each sent to the endpoint that `endpoints`
/// gives for `p`; nothing where it gives none.
pub open spec fn to_player(endpoints: Map<PlayerID, EndpointID>, p: PlayerID, events: Seq<EventView>) -> Seq<
    ActionView,
> {
    if endpoints.contains_key(p) {
        events.map_values(|e: EventView| ActionView::Send { endpoint: endpoints[p], event: e })
    } else {
        Seq::empty()
    }
}

/// For each of the members in turn, the notifications that `events` gives
/// for it, sent to its endpoint.
pub open spec fn fan_out(
    endpoints: Map<PlayerID, EndpointID>,
    members: Seq<PlayerID>,
    events: spec_fn(PlayerID) -> Seq<EventView>,
) -> Seq<ActionView>
    decreases members.len(),
{
    if members.len() == 0 {
        Seq::empty()
    } else {
        fan_out(endpoints, members.drop_last(), events) + to_player(
            endpoints,
            members.last(),
            events(members.last()),
        )
    }
}

/// The same notifications for every member.
pub open spec fn each(events: Seq<EventView>) -> spec_fn(PlayerID) -> Seq<EventView> {
    |p: PlayerID| events
}

/// What the members of a lobby that is destroyed are told: that they have
/// left it, and that it is gone. The player `skip` is told nothing.
pub open spec fn farewell(lobby_id: LobbyID, skip: Option<PlayerID>) -> spec_fn(PlayerID) -> Seq<EventView> {
    |p: PlayerID|
        if skip == Some(p) {
            Seq::empty()
        } else {
            seq![EventView::LobbyLeft(p, lobby_id), EventView::LobbyDeleted(lobby_id)]
        }
}

/// What the members that stay are told when `leaver` leaves their lobby.
pub open spec fn departure(lobby_id: LobbyID, leaver: PlayerID, was_queueing: bool) -> Seq<EventView> {
    if was_queueing {
        seq![EventView::QueueStopped(lobby_id), EventView::LobbyLeft(leaver, lobby_id)]
    } else {
        seq![EventView::LobbyLeft(leaver, lobby_id)]
    }
}

/// The notification `event` sent to every listed endpoint but `skip`, in
/// the order of the list.
pub open spec fn broadcast_to(pairs: Seq<(PlayerID, EndpointID)>, skip: EndpointID, event: EventView) -> Seq<
    ActionView,
>
    decreases pairs.len(),
{
    if pairs.len() == 0 {
        Seq::empty()
    } else if pairs.last().1 == skip {
        broadcast_to(pairs.drop_last(), skip, event)
    } else {
        broadcast_to(pairs.drop_last(), skip, event).push(
            ActionView::Send { endpoint: pairs.last().1, event: event },
        )
    }
}

/// The members without `p`, in their order.
pub open spec fn without(members: Seq<PlayerID>, p: PlayerID) -> Seq<PlayerID>
    decreases members.len(),
{
    if members.len() == 0 {
        Seq::empty()
    } else if members.last() == p {
        without(members.drop_last(), p)
    } else {
        without(members.drop_last(), p).push(members.last())
    }
}

/// The player registry after each registered member was taken out of its
/// lobby.
pub open spec fn cleared(players: Map<PlayerID, PlayerInfo>, members: Seq<PlayerID>) -> Map<PlayerID, PlayerInfo> {
    Map::new(
        |q: PlayerID| players.contains_key(q),
        |q: PlayerID|
            if members.contains(q) {
                (players[q].0, None::<LobbyID>)
            } else {
                players[q]
            },
    )
}

/// The lobby in another status.
pub open spec fn with_status(lobby: LobbyView, status: LobbyStatus) -> LobbyView {
    LobbyView { status: status, ..lobby }
}

/// The store after the lobby `id` was taken out of the queue of its mode in
/// `region`.
pub open spec fn dequeued(s: StoreView, region: Region, mode: GameMode, id: LobbyID) -> StoreView {
    match mode {
        GameMode::Casual => StoreView {
            casual: s.casual.insert(region, remove_at(s.casual[region], first_where(s.casual[region], has_id(id)))),
            ..s
        },
        GameMode::Competitive => StoreView {
            competitive: s.competitive.insert(
                region,
                remove_at(s.competitive[region], first_where(s.competitive[region], rated_has_id(id))),
            ),
            ..s
        },
    }
}

/// The store after the lobby `lobby` of `region` was put into the queue of
/// its mode.
pub open spec fn enqueued(s: StoreView, region: Region, lobby: LobbyView) -> StoreView {
    match lobby.params.mode {
        GameMode::Casual => StoreView { casual: s.casual.insert(region, s.casual[region].push(lobby)), ..s },
        GameMode::Competitive => {
            let rating = average_rating(s, region, lobby.lobby_id) as usize;
            StoreView {
                competitive: s.competitive.insert(
                    region,
                    s.competitive[region].insert(
                        first_where(s.competitive[region], rated_above(rating)),
                        RatedView { rating: rating, lobby: lobby },
                    ),
                ),
                ..s
            }
        },
    }
}

/// The store after the lobby `id` of `region` was destroyed: it is gone from
/// its bucket and from the index, and its members are in no lobby.
pub open spec fn destroyed(s: StoreView, region: Region, id: LobbyID, members: Seq<PlayerID>) -> StoreView {
    StoreView {
        lobbies: s.lobbies.remove((region, id)),
        lobby_regions: s.lobby_regions.remove(id),
        players: cleared(s.players, members),
        ..s
    }
}

/// The store with another current lobby for the player `p`, who is
/// registered.
pub open spec fn with_lobby(s: StoreView, p: PlayerID, lobby: Option<LobbyID>) -> StoreView {
    StoreView { players: s.players.insert(p, (s.players[p].0, lobby)), ..s }
}

/// The store with `lobby` in the bucket of `region`, under its own
/// identifier.
pub open spec fn with_entry(s: StoreView, region: Region, lobby: LobbyView) -> StoreView {
    StoreView { lobbies: s.lobbies.insert((region, lobby.lobby_id), lobby), ..s }
}

/// A lobby as it is created: idle, with its creator as leader and only
/// member.
pub open spec fn fresh_lobby(id: LobbyID, params: LobbyParamsView, leader: PlayerID) -> LobbyView {
    LobbyView {
        lobby_id: id,
        params: params,
        leader: leader,
        status: LobbyStatus::Idle,
        players: seq![leader],
        queue_threshold: 0,
    }
}

/// A connection: the endpoint is bound to the player `id`, who is
/// registered with rating zero; the client is told its identifier and,
/// after a pause, every other endpoint of `pairs` is told of the new
/// player. Turned down where the endpoint or the identifier is in use.
pub open spec fn connect_outcome(
    s: StoreView,
    endpoint: EndpointID,
    id: PlayerID,
    pairs: Seq<(PlayerID, EndpointID)>,
) -> Outcome {
    if s.endpoint_users.contains_key(endpoint) || s.user_endpoints.contains_key(id) || s.players.contains_key(
        id,
    ) {
        rejected(s, GameSyncError::SendError)
    } else {
        accepted(
            StoreView {
                user_endpoints: s.user_endpoints.insert(id, endpoint),
                endpoint_users: s.endpoint_users.insert(endpoint, id),
                players: s.players.insert(id, (Player { player_id: id, rating: 0 }, None::<LobbyID>)),
                ..s
            },
            seq![
                ActionView::Send { endpoint: endpoint, event: EventView::SelfPlayer(uuid_text_of(id)) },
                ActionView::Wait { millis: GREETING_PAUSE_MS },
            ] + broadcast_to(pairs, endpoint, EventView::NewPlayer(uuid_text_of(id))),
        )
    }
}

/// `Broadcast`: the message goes to every endpoint of `pairs` but the
/// sender's.
pub open spec fn broadcast_outcome(
    s: StoreView,
    sender: PlayerID,
    endpoint: EndpointID,
    message: Seq<char>,
    pairs: Seq<(PlayerID, EndpointID)>,
) -> Outcome {
    accepted(s, broadcast_to(pairs, endpoint, EventView::UserMessage(sender, message)))
}

/// `SendTo`: the message goes to the player that `target` names.
pub open spec fn send_to_outcome(s: StoreView, sender: PlayerID, target: Seq<char>, message: Seq<char>) -> Outcome {
    match uuid_parsed(target) {
        None => rejected(s, GameSyncError::UuidError),
        Some(to) => if !s.user_endpoints.contains_key(to) {
            rejected(s, GameSyncError::SendError)
        } else {
            accepted(s, to_player(s.user_endpoints, to, seq![EventView::UserMessage(sender, message)]))
        },
    }
}

/// `CreateLobby`, with `id` as the identifier of the new lobby.
pub open spec fn create_lobby_outcome(s: StoreView, p: PlayerID, params: LobbyParamsView, id: LobbyID) -> Outcome {
    if !s.players.contains_key(p) {
        rejected(s, GameSyncError::PlayerFindError)
    } else if s.players[p].1 is Some || s.lobby_regions.contains_key(id) {
        rejected(s, GameSyncError::LobbyCreateError)
    } else {
        let lobby = fresh_lobby(id, params, p);
        accepted(
            with_lobby(
                StoreView {
                    lobbies: s.lobbies.insert((params.region, id), lobby),
                    lobby_regions: s.lobby_regions.insert(id, params.region),
                    ..s
                },
                p,
                Some(id),
            ),
            to_player(s.user_endpoints, p, seq![EventView::LobbyCreated(lobby)]),
        )
    }
}

/// `JoinLobby`.
pub open spec fn join_lobby_outcome(s: StoreView, p: PlayerID, id: LobbyID) -> Outcome {
    if !s.players.contains_key(p) {
        rejected(s, GameSyncError::PlayerFindError)
    } else if s.players[p].1 is Some {
        rejected(s, GameSyncError::LobbyJoinError)
    } else {
        match find_lobby(s, id) {
            None => rejected(s, GameSyncError::LobbyFindError),
            Some(lobby) => if lobby.players.len() >= s.lobby_size {
                rejected(s, GameSyncError::LobbyFullError)
            } else {
                let joined = LobbyView { players: lobby.players.push(p), ..lobby };
                accepted(
                    with_lobby(
                        StoreView { lobbies: s.lobbies.insert((s.lobby_regions[id], id), joined), ..s },
                        p,
                        Some(id),
                    ),
                    fan_out(s.user_endpoints, joined.players, each(seq![EventView::LobbyJoined(p, id)])),
                )
            },
        }
    }
}

/// `DeleteLobby`.
pub open spec fn delete_lobby_outcome(s: StoreView, p: PlayerID, id: LobbyID) -> Outcome {
    match find_lobby(s, id) {
        None => rejected(s, GameSyncError::LobbyFindError),
        Some(lobby) => if p != lobby.leader {
            rejected(s, GameSyncError::LobbyOwnerError)
        } else if lobby.status != LobbyStatus::Idle {
            rejected(s, GameSyncError::LobbyDeleteError)
        } else {
            accepted(
                destroyed(s, s.lobby_regions[id], id, lobby.players),
                fan_out(s.user_endpoints, lobby.players, farewell(id, None)),
            )
        },
    }
}

/// The store after the player `p` has gone from the lobby `lobby`, found
/// under `id`: a queueing lobby is taken out of its queue and made idle
/// first; then the lobby is destroyed where `p` leads it, and goes on
/// without `p` where not.
pub open spec fn departed(s: StoreView, p: PlayerID, id: LobbyID, lobby: LobbyView) -> StoreView {
    let region = s.lobby_regions[id];
    let was_queueing = lobby.status == LobbyStatus::Queueing;
    let s1 = if was_queueing {
        dequeued(s, region, lobby.params.mode, id)
    } else {
        s
    };
    if p == lobby.leader {
        destroyed(s1, region, id, lobby.players)
    } else {
        let rest = LobbyView {
            status: if was_queueing {
                LobbyStatus::Idle
            } else {
                lobby.status
            },
            players: without(lobby.players, p),
            ..lobby
        };
        StoreView {
            lobbies: s1.lobbies.insert((region, id), rest),
            players: if s1.players.contains_key(p) {
                s1.players.insert(p, (s1.players[p].0, None::<LobbyID>))
            } else {
                s1.players
            },
            ..s1
        }
    }
}

/// `LeaveLobby`.
pub open spec fn leave_lobby_outcome(s: StoreView, p: PlayerID, id: LobbyID) -> Outcome {
    match find_lobby(s, id) {
        None => rejected(s, GameSyncError::LobbyFindError),
        Some(lobby) => if !lobby.players.contains(p) {
            rejected(s, GameSyncError::LobbyInviteError)
        } else {
            accepted(
                departed(s, p, id, lobby),
                if p == lobby.leader {
                    fan_out(s.user_endpoints, lobby.players, farewell(id, None))
                } else {
                    to_player(s.user_endpoints, p, seq![EventView::LobbyLeft(p, id)]) + fan_out(
                        s.user_endpoints,
                        without(lobby.players, p),
                        each(departure(id, p, lobby.status == LobbyStatus::Queueing)),
                    )
                },
            )
        },
    }
}

/// `MessageLobby`.
pub open spec fn message_lobby_outcome(s: StoreView, p: PlayerID, id: LobbyID, message: Seq<char>) -> Outcome {
    if !s.players.contains_key(p) {
        rejected(s, GameSyncError::PlayerFindError)
    } else if s.players[p].1 is None {
        rejected(s, GameSyncError::LobbyPlayerError)
    } else if s.players[p].1 != Some(id) {
        rejected(s, GameSyncError::LobbyMessageError)
    } else {
        match find_lobby(s, id) {
            None => rejected(s, GameSyncError::LobbyFindError),
            Some(lobby) => accepted(s, fan_out(s.user_endpoints, lobby.players, each(seq![EventView::LobbyMessage(p, message)]))),
        }
    }
}

/// `InviteLobby`.
pub open spec fn invite_lobby_outcome(s: StoreView, p: PlayerID, id: LobbyID, invitee: PlayerID) -> Outcome {
    if !s.players.contains_key(p) {
        rejected(s, GameSyncError::PlayerFindError)
    } else if s.players[p].1 is None {
        rejected(s, GameSyncError::LobbyInviteError)
    } else if s.players[p].1 != Some(id) {
        rejected(s, GameSyncError::LobbyCurInviteError)
    } else if !s.user_endpoints.contains_key(invitee) {
        rejected(s, GameSyncError::SendError)
    } else {
        accepted(s, to_player(s.user_endpoints, invitee, seq![EventView::LobbyInvited(id)]))
    }
}

/// `GetPublicLobbies`, with `list` as the listing of the region.
pub open spec fn public_lobbies_outcome(s: StoreView, p: PlayerID, list: Seq<LobbyView>) -> Outcome {
    accepted(s, to_player(s.user_endpoints, p, seq![EventView::PublicLobbies(list)]))
}

/// `EditPlayer`: the sender takes the rating of `profile`.
pub open spec fn edit_player_outcome(s: StoreView, p: PlayerID, profile: Player) -> Outcome {
    if !s.players.contains_key(p) {
        rejected(s, GameSyncError::PlayerFindError)
    } else if s.players[p].1 is Some && find_lobby(s, s.players[p].1->Some_0) is None {
        rejected(s, GameSyncError::LobbyFindError)
    } else if s.players[p].1 is Some && find_lobby(s, s.players[p].1->Some_0)->Some_0.status != LobbyStatus::Idle {
        rejected(s, GameSyncError::PlayerEditError)
    } else {
        accepted(
            StoreView {
                players: s.players.insert(p, (Player { player_id: p, rating: profile.rating }, s.players[p].1)),
                ..s
            },
            to_player(s.user_endpoints, p, seq![EventView::PlayerEdited(p)]),
        )
    }
}

/// `QueueLobby`.
pub open spec fn queue_lobby_outcome(s: StoreView, p: PlayerID, id: LobbyID) -> Outcome {
    match find_lobby(s, id) {
        None => rejected(s, GameSyncError::LobbyFindError),
        Some(lobby) => if p != lobby.leader {
            rejected(s, GameSyncError::LobbyOwnerError)
        } else if lobby.status != LobbyStatus::Idle {
            rejected(s, GameSyncError::LobbyQueueError)
        } else if lobby.players.len() != s.lobby_size {
            rejected(s, GameSyncError::LobbySizeError)
        } else {
            let region = s.lobby_regions[id];
            let queued = with_status(lobby, LobbyStatus::Queueing);
            accepted(
                StoreView {
                    lobbies: s.lobbies.insert((region, id), queued),
                    ..enqueued(s, region, queued)
                },
                fan_out(s.user_endpoints, lobby.players, each(seq![EventView::LobbyQueued(id)])),
            )
        },
    }
}

/// The positions of the requester and of its match in the queue of the
/// lobby's mode.
pub open spec fn match_pair(s: StoreView, region: Region, mode: GameMode, id: LobbyID, threshold: usize) -> Option<
    (int, int),
> {
    match mode {
        GameMode::Casual => casual_pair(s.casual[region], id),
        GameMode::Competitive => competitive_pair(s.competitive[region], id, threshold),
    }
}

/// The lobby at a position of the queue of a mode.
pub open spec fn queued_at(s: StoreView, region: Region, mode: GameMode, i: int) -> LobbyView {
    match mode {
        GameMode::Casual => s.casual[region][i],
        GameMode::Competitive => s.competitive[region][i].lobby,
    }
}

/// The store after the entries at two positions were taken out of the
/// queue of a mode.
pub open spec fn unqueued_pair(s: StoreView, region: Region, mode: GameMode, t: int, c: int) -> StoreView {
    match mode {
        GameMode::Casual => StoreView { casual: s.casual.insert(region, remove_pair(s.casual[region], t, c)), ..s },
        GameMode::Competitive => StoreView {
            competitive: s.competitive.insert(region, remove_pair(s.competitive[region], t, c)),
            ..s
        },
    }
}

/// The requester of a match as it enters the game: in game, with the
/// tolerance that found the match.
pub open spec fn matched_requester(a: LobbyView, threshold: usize) -> LobbyView {
    LobbyView { status: LobbyStatus::Ingame, queue_threshold: threshold, ..a }
}

/// The store after the match of `a` with `b` was made final: both are in
/// game, and `a` keeps the tolerance that found the match.
pub open spec fn finalized(s: StoreView, region: Region, a: LobbyView, b: LobbyView, threshold: usize) -> StoreView {
    with_entry(
        with_entry(s, region, matched_requester(a, threshold)),
        region,
        with_status(b, LobbyStatus::Ingame),
    )
}

/// What the members of two matched lobbies are told: each the lobby it
/// plays against.
pub open spec fn match_actions(s: StoreView, a: LobbyView, b: LobbyView, threshold: usize) -> Seq<ActionView> {
    fan_out(s.user_endpoints, a.players, each(seq![EventView::MatchFound(with_status(b, LobbyStatus::Ingame))])) + fan_out(
        s.user_endpoints,
        b.players,
        each(seq![EventView::MatchFound(matched_requester(a, threshold))]),
    )
}

/// `CheckMatch`.
pub open spec fn check_match_outcome(s: StoreView, p: PlayerID, id: LobbyID, threshold: usize) -> Outcome {
    match find_lobby(s, id) {
        None => rejected(s, GameSyncError::LobbyFindError),
        Some(lobby) => if p != lobby.leader {
            rejected(s, GameSyncError::LobbyOwnerError)
        } else if lobby.status != LobbyStatus::Queueing {
            rejected(s, GameSyncError::LobbyCheckError)
        } else {
            let region = s.lobby_regions[id];
            let mode = lobby.params.mode;
            match match_pair(s, region, mode, id, threshold) {
                None => accepted(s, to_player(s.user_endpoints, p, seq![EventView::MatchNotFound])),
                Some((t, c)) => {
                    let a = queued_at(s, region, mode, t);
                    let b = queued_at(s, region, mode, c);
                    accepted(
                        finalized(unqueued_pair(s, region, mode, t, c), region, a, b, threshold),
                        match_actions(s, a, b, threshold),
                    )
                },
            }
        },
    }
}

/// `StopQueue`.
pub open spec fn stop_queue_outcome(s: StoreView, p: PlayerID, id: LobbyID) -> Outcome {
    match find_lobby(s, id) {
        None => rejected(s, GameSyncError::LobbyFindError),
        Some(lobby) => if p != lobby.leader {
            rejected(s, GameSyncError::LobbyOwnerError)
        } else if lobby.status != LobbyStatus::Queueing {
            rejected(s, GameSyncError::LobbyStopError)
        } else {
            let region = s.lobby_regions[id];
            let s1 = dequeued(s, region, lobby.params.mode, id);
            accepted(
                StoreView { lobbies: s1.lobbies.insert((region, id), with_status(lobby, LobbyStatus::Idle)), ..s1 },
                fan_out(s.user_endpoints, lobby.players, each(seq![EventView::QueueStopped(id)])),
            )
        },
    }
}

/// `LeaveGameAsLobby`.
pub open spec fn leave_game_outcome(s: StoreView, p: PlayerID, id: LobbyID) -> Outcome {
    match find_lobby(s, id) {
        None => rejected(s, GameSyncError::LobbyFindError),
        Some(lobby) => if p != lobby.leader {
            rejected(s, GameSyncError::LobbyOwnerError)
        } else if lobby.status != LobbyStatus::Ingame {
            rejected(s, GameSyncError::LeaveGameError)
        } else {
            accepted(
                StoreView {
                    lobbies: s.lobbies.insert((s.lobby_regions[id], id), with_status(lobby, LobbyStatus::Idle)),
                    ..s
                },
                fan_out(s.user_endpoints, lobby.players, each(seq![EventView::LeftGame(id)])),
            )
        },
    }
}

/// `GetLobbyInfo`.
pub open spec fn lobby_info_outcome(s: StoreView, p: PlayerID, id: LobbyID) -> Outcome {
    match find_lobby(s, id) {
        None => rejected(s, GameSyncError::LobbyFindError),
        Some(lobby) => accepted(s, to_player(s.user_endpoints, p, seq![EventView::LobbyInfo(lobby)])),
    }
}

/// The store without the binding of the endpoint and of the player behind
/// it.
pub open spec fn detached(s: StoreView, endpoint: EndpointID) -> StoreView {
    StoreView {
        user_endpoints: match s.endpoint_users.get(endpoint) {
            Some(p) => s.user_endpoints.remove(p),
            None => s.user_endpoints,
        },
        endpoint_users: s.endpoint_users.remove(endpoint),
        ..s
    }
}

/// The store without the record of the player `p`.
pub open spec fn forgotten(s: StoreView, p: PlayerID) -> StoreView {
    StoreView { players: s.players.remove(p), ..s }
}

/// A disconnection: the player behind the endpoint leaves its lobby as by
/// `LeaveLobby`, but is itself told nothing; then its record and the
/// binding of the endpoint are removed. Never turned down.
pub open spec fn disconnect_outcome(s: StoreView, endpoint: EndpointID) -> Outcome {
    match s.endpoint_users.get(endpoint) {
        None => accepted(s, Seq::empty()),
        Some(p) => {
            let lobby = if s.players.contains_key(p) && s.players[p].1 is Some {
                find_lobby(s, s.players[p].1->Some_0)
            } else {
                None
            };
            match lobby {
                None => accepted(detached(forgotten(s, p), endpoint), Seq::empty()),
                Some(lobby) => {
                    let id = s.players[p].1->Some_0;
                    accepted(
                        detached(forgotten(departed(s, p, id, lobby), p), endpoint),
                        if p == lobby.leader {
                            fan_out(s.user_endpoints, lobby.players, farewell(id, Some(p)))
                        } else {
                            fan_out(
                                s.user_endpoints,
                                without(lobby.players, p),
                                each(departure(id, p, lobby.status == LobbyStatus::Queueing)),
                            )
                        },
                    )
                },
            }
        },
    }
}

} // verus!
