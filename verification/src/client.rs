//! What a client keeps of its session: whether it is connected, and the
//! identifier that the server gave it.

use crate::error::GameSyncError;
use crate::events::{EventView, ServerEvent};
use crate::ident::{parse_uuid, uuid_parsed};
use crate::lobby::PlayerID;
use vstd::prelude::*;

verus! {

/// The session state of a client.
pub struct Store {
    /// Whether the server has confirmed the connection.
    pub is_connected: bool,
    /// The identifier that the server gave the client; zero before it gave
    /// one.
    pub player_id: PlayerID,
}

impl Store {
    /// The state before the connection is made.
    pub fn new() -> (store: Store)
        ensures
            !store.is_connected,
            store.player_id == 0,
    {
        Store { is_connected: false, player_id: 0 }
    }

    /// The identifier that the server gave the client; zero before it gave
    /// one.
    pub fn get_player_id(&self) -> (id: PlayerID)
        ensures
            id == self.player_id,
    {
        self.player_id
    }

    /// Takes the identifier that `player_id` is the text of. A text that is
    /// no identifier is turned down and changes nothing.
    pub fn set_player_id(&mut self, player_id: String) -> (r: Result<(), GameSyncError>)
        ensures
            final(self).is_connected == old(self).is_connected,
            match uuid_parsed(player_id@) {
                Some(id) => r is Ok && final(self).player_id == id,
                None => r == Err::<(), GameSyncError>(GameSyncError::UuidError) && final(self).player_id == old(self).player_id,
            },
    {
        match parse_uuid(player_id.as_str()) {
            Some(id) => {
                self.player_id = id;
                Ok(())
            },
            None => Err(GameSyncError::UuidError),
        }
    }

    /// Takes note of a notification: `Connected` marks the client as
    /// connected, `SelfPlayer` gives it its identifier, and any other
    /// changes nothing. Fails on a `SelfPlayer` whose text is no identifier.
    pub fn on_event(&mut self, event: &ServerEvent) -> (r: Result<(), GameSyncError>)
        ensures
            match event@ {
                EventView::Connected => r is Ok && final(self).is_connected && final(self).player_id == old(self).player_id,
                EventView::SelfPlayer(text) => final(self).is_connected == old(self).is_connected && (match uuid_parsed(
                    text,
                ) {
                    Some(id) => r is Ok && final(self).player_id == id,
                    None => r == Err::<(), GameSyncError>(GameSyncError::UuidError) && final(self).player_id
                        == old(self).player_id,
                }),
                _ => r is Ok && final(self).is_connected == old(self).is_connected && final(self).player_id
                    == old(self).player_id,
            },
    {
        match event {
            ServerEvent::Connected() => {
                self.is_connected = true;
                Ok(())
            },
            ServerEvent::SelfPlayer(player) => self.set_player_id(player.clone()),
            _ => Ok(()),
        }
    }
}

} // verus!
