//! What clients ask of the server, what the server tells them, and the
//! actions by which the server's answers reach the transport.

use crate::lobby::{Lobby, LobbyID, LobbyParams, LobbyView, Player, PlayerID, Region};
use crate::queue::lobby_views;
use crate::store::EndpointID;
use vstd::prelude::*;

verus! {

/// A request of a client. Its sender is the player behind the endpoint that
/// it arrived on.
#[derive(Debug)]
pub enum ClientEvent {
    /// A message for every other connected player.
    Broadcast(String),
    /// A message for the player whose identifier is written in the first
    /// text.
    SendTo(String, String),
    CreateLobby(LobbyParams),
    JoinLobby(LobbyID),
    DeleteLobby(LobbyID),
    LeaveLobby(LobbyID),
    /// Invites the player to the lobby.
    InviteLobby(LobbyID, PlayerID),
    GetPublicLobbies(Region),
    EditPlayer(Player),
    MessageLobby(LobbyID, String),
    QueueLobby(LobbyID),
    /// Looks for a match for the lobby; the number is the greatest rating
    /// difference tolerated, zero where absent.
    CheckMatch(LobbyID, Option<usize>),
    StopQueue(LobbyID),
    LeaveGameAsLobby(LobbyID),
    GetLobbyInfo(LobbyID),
}

/// A notification of the server.
#[derive(Debug)]
pub enum ServerEvent {
    Connected(),
    /// A message, with the player it is from.
    UserMessage(PlayerID, String),
    /// The identifier that the receiver was given, as text.
    SelfPlayer(String),
    /// The identifier of a player that has connected, as text.
    NewPlayer(String),
    LobbyCreated(Lobby),
    LobbyJoined(PlayerID, LobbyID),
    LobbyDeleted(LobbyID),
    LobbyLeft(PlayerID, LobbyID),
    LobbyInvited(LobbyID),
    PublicLobbies(Vec<Lobby>),
    PlayerEdited(PlayerID),
    /// A message to a lobby, with the player it is from.
    LobbyMessage(PlayerID, String),
    LobbyQueued(LobbyID),
    /// A match, with the lobby played against.
    MatchFound(Lobby),
    MatchNotFound,
    QueueStopped(LobbyID),
    LeftGame(LobbyID),
    LobbyInfo(Lobby),
}

/// The mathematical value of a [`ServerEvent`].
pub enum EventView {
    Connected,
    UserMessage(PlayerID, Seq<char>),
    SelfPlayer(Seq<char>),
    NewPlayer(Seq<char>),
    LobbyCreated(LobbyView),
    LobbyJoined(PlayerID, LobbyID),
    LobbyDeleted(LobbyID),
    LobbyLeft(PlayerID, LobbyID),
    LobbyInvited(LobbyID),
    PublicLobbies(Seq<LobbyView>),
    PlayerEdited(PlayerID),
    LobbyMessage(PlayerID, Seq<char>),
    LobbyQueued(LobbyID),
    MatchFound(LobbyView),
    MatchNotFound,
    QueueStopped(LobbyID),
    LeftGame(LobbyID),
    LobbyInfo(LobbyView),
}

impl View for ServerEvent {
    type V = EventView;

    open spec fn view(&self) -> EventView {
        match self {
            ServerEvent::Connected() => EventView::Connected,
            ServerEvent::UserMessage(p, m) => EventView::UserMessage(*p, m@),
            ServerEvent::SelfPlayer(t) => EventView::SelfPlayer(t@),
            ServerEvent::NewPlayer(t) => EventView::NewPlayer(t@),
            ServerEvent::LobbyCreated(l) => EventView::LobbyCreated(l@),
            ServerEvent::LobbyJoined(p, l) => EventView::LobbyJoined(*p, *l),
            ServerEvent::LobbyDeleted(l) => EventView::LobbyDeleted(*l),
            ServerEvent::LobbyLeft(p, l) => EventView::LobbyLeft(*p, *l),
            ServerEvent::LobbyInvited(l) => EventView::LobbyInvited(*l),
            ServerEvent::PublicLobbies(ls) => EventView::PublicLobbies(lobby_views(ls@)),
            ServerEvent::PlayerEdited(p) => EventView::PlayerEdited(*p),
            ServerEvent::LobbyMessage(p, m) => EventView::LobbyMessage(*p, m@),
            ServerEvent::LobbyQueued(l) => EventView::LobbyQueued(*l),
            ServerEvent::MatchFound(l) => EventView::MatchFound(l@),
            ServerEvent::MatchNotFound => EventView::MatchNotFound,
            ServerEvent::QueueStopped(l) => EventView::QueueStopped(*l),
            ServerEvent::LeftGame(l) => EventView::LeftGame(*l),
            ServerEvent::LobbyInfo(l) => EventView::LobbyInfo(l@),
        }
    }
}

/// A copy of a list of lobbies.
pub fn copy_lobbies(lobbies: &Vec<Lobby>) -> (r: Vec<Lobby>)
    ensures
        lobby_views(r@) == lobby_views(lobbies@),
{
    let mut r: Vec<Lobby> = Vec::new();
    let mut i: usize = 0;
    while i < lobbies.len()
        invariant
            i <= lobbies@.len(),
            r@.len() == i,
            forall|j: int| 0 <= j < i ==> (#[trigger] r@[j])@ == lobbies@[j]@,
        decreases lobbies@.len() - i,
    {
        r.push(lobbies[i].clone());
        i += 1;
    }
    assert(lobby_views(r@) =~= lobby_views(lobbies@));
    r
}

impl Clone for ServerEvent {
    fn clone(&self) -> (r: Self)
        ensures
            r@ == self@,
    {
        match self {
            ServerEvent::Connected() => ServerEvent::Connected(),
            ServerEvent::UserMessage(p, m) => ServerEvent::UserMessage(*p, m.clone()),
            ServerEvent::SelfPlayer(t) => ServerEvent::SelfPlayer(t.clone()),
            ServerEvent::NewPlayer(t) => ServerEvent::NewPlayer(t.clone()),
            ServerEvent::LobbyCreated(l) => ServerEvent::LobbyCreated(l.clone()),
            ServerEvent::LobbyJoined(p, l) => ServerEvent::LobbyJoined(*p, *l),
            ServerEvent::LobbyDeleted(l) => ServerEvent::LobbyDeleted(*l),
            ServerEvent::LobbyLeft(p, l) => ServerEvent::LobbyLeft(*p, *l),
            ServerEvent::LobbyInvited(l) => ServerEvent::LobbyInvited(*l),
            ServerEvent::PublicLobbies(ls) => ServerEvent::PublicLobbies(copy_lobbies(ls)),
            ServerEvent::PlayerEdited(p) => ServerEvent::PlayerEdited(*p),
            ServerEvent::LobbyMessage(p, m) => ServerEvent::LobbyMessage(*p, m.clone()),
            ServerEvent::LobbyQueued(l) => ServerEvent::LobbyQueued(*l),
            ServerEvent::MatchFound(l) => ServerEvent::MatchFound(l.clone()),
            ServerEvent::MatchNotFound => ServerEvent::MatchNotFound,
            ServerEvent::QueueStopped(l) => ServerEvent::QueueStopped(*l),
            ServerEvent::LeftGame(l) => ServerEvent::LeftGame(*l),
            ServerEvent::LobbyInfo(l) => ServerEvent::LobbyInfo(l.clone()),
        }
    }
}

/// What the transport is to do for the server, in the order given.
#[derive(Debug)]
pub enum Action {
    /// Hand the notification to the endpoint.
    Send { endpoint: EndpointID, event: ServerEvent },
    /// Let the given number of milliseconds pass.
    Wait { millis: u64 },
}

/// The mathematical value of an [`Action`].
pub enum ActionView {
    Send { endpoint: EndpointID, event: EventView },
    Wait { millis: u64 },
}

impl View for Action {
    type V = ActionView;

    open spec fn view(&self) -> ActionView {
        match self {
            Action::Send { endpoint, event } => ActionView::Send { endpoint: *endpoint, event: event@ },
            Action::Wait { millis } => ActionView::Wait { millis: *millis },
        }
    }
}

/// The values of a sequence of actions.
pub open spec fn action_views(actions: Seq<Action>) -> Seq<ActionView> {
    actions.map_values(|a: Action| a@)
}

/// The values of a sequence of notifications.
pub open spec fn event_views(events: Seq<ServerEvent>) -> Seq<EventView> {
    events.map_values(|e: ServerEvent| e@)
}

} // verus!
