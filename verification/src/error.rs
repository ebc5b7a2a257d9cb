//! The ways in which a request or a transport operation can fail.

use vstd::prelude::*;
use vstd::string::StringExecFns;

verus! {

/// Why a request was turned down, or what went wrong around it.
#[derive(Debug, Copy, Clone, PartialEq, Eq, Structural)]
pub enum GameSyncError {
    /// An incoming payload could not be decoded.
    ParseError,
    /// The transport could not be set up.
    SocketError,
    /// A text is not a well-formed identifier.
    UuidError,
    /// The client's state could not be reached.
    LockError,
    /// A notification could not be handed to its recipient.
    SendError,
    /// No player is bound to the endpoint.
    UserNotFound,
    /// No lobby has the identifier.
    LobbyFindError,
    /// The sender already is in a lobby and cannot create one.
    LobbyCreateError,
    /// The sender already is in a lobby and cannot join one.
    LobbyJoinError,
    /// The lobby has no free place.
    LobbyFullError,
    /// Only the leader may do this.
    LobbyOwnerError,
    /// The sender is not in the lobby it wants to leave.
    LobbyLeaveError,
    /// The sender is in no lobby, or not in the one it names.
    LobbyInviteError,
    /// The sender invites to a lobby other than its own.
    LobbyCurInviteError,
    /// No player has the identifier.
    PlayerFindError,
    /// The player's lobby is queueing or in a game.
    PlayerEditError,
    /// The sender is in no lobby and cannot message one.
    LobbyPlayerError,
    /// The sender messages a lobby other than its own.
    LobbyMessageError,
    /// The lobby is not full yet.
    LobbySizeError,
    /// The lobby is queueing or in a game already.
    LobbyQueueError,
    /// The lobby is not queueing, so no match can be looked for.
    LobbyCheckError,
    /// The lobby is not idle, so it cannot be deleted.
    LobbyDeleteError,
    /// The lobby is not queueing, so its queue cannot be stopped.
    LobbyStopError,
    /// The lobby is not in a game.
    LeaveGameError,
}

impl GameSyncError {
    /// The text shown for the error.
    pub open spec fn spec_message(self) -> Seq<char> {
        match self {
            GameSyncError::ParseError => "Failed to parse event payload"@,
            GameSyncError::SocketError => "Socket error"@,
            GameSyncError::UuidError => "Failed to parse uuid"@,
            GameSyncError::LockError => "Failed to access store"@,
            GameSyncError::SendError => "Failed to send socket event"@,
            GameSyncError::UserNotFound => "Failed to find lobby"@,
            GameSyncError::LobbyFindError => "Lobby not found."@,
            GameSyncError::LobbyCreateError => "Failed to create lobby. Player already part of a lobby"@,
            GameSyncError::LobbyJoinError => "Failed to join lobby. Player already part of a lobby"@,
            GameSyncError::LobbyFullError => "Failed to join lobby. Lobby full"@,
            GameSyncError::LobbyOwnerError => "Invalid permissions. Player not lobby owner"@,
            GameSyncError::LobbyLeaveError => "Failed to leave lobby. Player not part of lobby"@,
            GameSyncError::LobbyInviteError => "Failed to invite. Player not part of a lobby"@,
            GameSyncError::LobbyCurInviteError => "Failed to invite. Player not part of this lobby"@,
            GameSyncError::PlayerFindError => "Player does not exist"@,
            GameSyncError::PlayerEditError => "Player cannot be edited. Must not be queueing or in-game"@,
            GameSyncError::LobbyPlayerError => "Failed to send message. Player not in a lobby"@,
            GameSyncError::LobbyMessageError => "Failed to send message. Player not part of lobby"@,
            GameSyncError::LobbySizeError => "Failed to queue. Lobby is not full"@,
            GameSyncError::LobbyQueueError => "Lobby is already in queue or in-game"@,
            GameSyncError::LobbyCheckError => "Failed to check lobby. Lobby is not currently in queue"@,
            GameSyncError::LobbyDeleteError => "Failed to delete lobby. Lobby is not idle"@,
            GameSyncError::LobbyStopError => "Failed to stop queue. Lobby is not currently in queue"@,
            GameSyncError::LeaveGameError => "Failed to leave game. Lobby is not currently in-game"@,
        }
    }

    /// The text shown for the error.
    pub fn message(&self) -> (r: String)
        ensures
            r@ == self.spec_message(),
    {
        let text = match self {
            GameSyncError::ParseError => "Failed to parse event payload",
            GameSyncError::SocketError => "Socket error",
            GameSyncError::UuidError => "Failed to parse uuid",
            GameSyncError::LockError => "Failed to access store",
            GameSyncError::SendError => "Failed to send socket event",
            GameSyncError::UserNotFound => "Failed to find lobby",
            GameSyncError::LobbyFindError => "Lobby not found.",
            GameSyncError::LobbyCreateError => "Failed to create lobby. Player already part of a lobby",
            GameSyncError::LobbyJoinError => "Failed to join lobby. Player already part of a lobby",
            GameSyncError::LobbyFullError => "Failed to join lobby. Lobby full",
            GameSyncError::LobbyOwnerError => "Invalid permissions. Player not lobby owner",
            GameSyncError::LobbyLeaveError => "Failed to leave lobby. Player not part of lobby",
            GameSyncError::LobbyInviteError => "Failed to invite. Player not part of a lobby",
            GameSyncError::LobbyCurInviteError => "Failed to invite. Player not part of this lobby",
            GameSyncError::PlayerFindError => "Player does not exist",
            GameSyncError::PlayerEditError => "Player cannot be edited. Must not be queueing or in-game",
            GameSyncError::LobbyPlayerError => "Failed to send message. Player not in a lobby",
            GameSyncError::LobbyMessageError => "Failed to send message. Player not part of lobby",
            GameSyncError::LobbySizeError => "Failed to queue. Lobby is not full",
            GameSyncError::LobbyQueueError => "Lobby is already in queue or in-game",
            GameSyncError::LobbyCheckError => "Failed to check lobby. Lobby is not currently in queue",
            GameSyncError::LobbyDeleteError => "Failed to delete lobby. Lobby is not idle",
            GameSyncError::LobbyStopError => "Failed to stop queue. Lobby is not currently in queue",
            GameSyncError::LeaveGameError => "Failed to leave game. Lobby is not currently in-game",
        };
        String::from_str(text)
    }
}

} // verus!
