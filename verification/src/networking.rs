//! The session coordinator: it applies the requests of clients to the store
//! and says what the transport is to send.

use crate::error::GameSyncError;
use crate::events::{
    action_views, event_views, Action, ActionView, ClientEvent, EventView, ServerEvent,
};
use crate::ident::{is_random_uuid, mint_id, parse_uuid, uuid_text, uuid_text_of};
use crate::invariants::{consistent, lemma_empty_store_consistent};
use crate::lobby::{
    GameMode, Lobby, LobbyID, LobbyParams, LobbyStatus, LobbyView, Player, PlayerID, Region,
};
use crate::model::{
    broadcast_outcome, broadcast_to, check_match_outcome, cleared, connect_outcome,
    create_lobby_outcome, delete_lobby_outcome, departed, departure, dequeued, destroyed,
    disconnect_outcome, each, edit_player_outcome, enqueued, fan_out, farewell, finalized,
    find_lobby, fresh_lobby, invite_lobby_outcome, join_lobby_outcome, leave_game_outcome,
    leave_lobby_outcome, lobby_info_outcome, match_actions, match_pair, matched_requester,
    message_lobby_outcome, public_lobbies_outcome, queue_lobby_outcome, rejected, send_to_outcome,
    stop_queue_outcome, to_player, unqueued_pair, with_status, without, GREETING_PAUSE_MS, Outcome,
};
use crate::queue::lobby_views;
use crate::store::{
    empty_store, lists_public, DataStore, EndpointID, PlayerInfo, ServerParams, StoreView,
};
use crate::preservation::{
    lemma_check_match_keeps, lemma_connect_keeps, lemma_create_lobby_keeps,
    lemma_delete_lobby_keeps, lemma_disconnect_keeps, lemma_edit_player_keeps,
    lemma_join_lobby_keeps, lemma_leave_game_keeps, lemma_leave_lobby_keeps,
    lemma_queue_lobby_keeps, lemma_stop_queue_keeps,
};
use crate::tables::lists_ids;
use vstd::prelude::*;

verus! {

/// Whether a handler that returned `r` and left the store `state` ended as
/// `o` says.
pub open spec fn outcome_is(r: Result<Vec<Action>, GameSyncError>, state: StoreView, o: Outcome) -> bool {
    &&& state == o.state
    &&& match r {
        Ok(actions) => o.result is Ok && action_views(actions@) == o.actions,
        Err(e) => o.result == Err::<(), GameSyncError>(e),
    }
}

/// Whether a list holds a player.
pub fn is_member(list: &Vec<PlayerID>, p: PlayerID) -> (r: bool)
    ensures
        r == list@.contains(p),
{
    let mut i: usize = 0;
    while i < list.len()
        invariant
            i <= list@.len(),
            forall|j: int| 0 <= j < i ==> list@[j] != p,
        decreases list@.len() - i,
    {
        if list[i] == p {
            return true;
        }
        i += 1;
    }
    false
}

/// The list without a player, in its order.
pub fn remove_member(list: &Vec<PlayerID>, p: PlayerID) -> (r: Vec<PlayerID>)
    ensures
        r@ == without(list@, p),
{
    let mut r: Vec<PlayerID> = Vec::new();
    let mut i: usize = 0;
    while i < list.len()
        invariant
            i <= list@.len(),
            r@ == without(list@.take(i as int), p),
        decreases list@.len() - i,
    {
        proof {
            assert(list@.take(i + 1).drop_last() == list@.take(i as int));
        }
        if list[i] != p {
            r.push(list[i]);
        }
        i += 1;
    }
    assert(list@.take(list@.len() as int) == list@);
    r
}

/// The session coordinator of a server.
pub struct Websocket {
    data_store: DataStore,
}

impl View for Websocket {
    type V = StoreView;

    closed spec fn view(&self) -> StoreView {
        self.data_store@
    }
}

impl Websocket {
    /// Whether the coordinator's store is well formed.
    pub closed spec fn wf(&self) -> bool {
        self.data_store.wf()
    }

    /// A coordinator without players or lobbies, for lobbies of
    /// `server_params.player_count` players.
    pub fn new(server_params: ServerParams) -> (ws: Websocket)
        requires
            server_params.player_count > 0,
        ensures
            ws.wf(),
            ws@ == empty_store(server_params.player_count),
            consistent(ws@),
    {
        proof {
            lemma_empty_store_consistent(server_params.player_count);
        }
        Websocket { data_store: DataStore::new(server_params) }
    }

    /// The store, to look into.
    pub fn store(&self) -> (r: &DataStore)
        requires
            self.wf(),
        ensures
            r.wf(),
            r@ == self@,
    {
        &self.data_store
    }

    /// The region that the index gives for a lobby.
    fn find_region_lobby(&self, lobby_id: LobbyID) -> (r: Result<Region, GameSyncError>)
        ensures
            match self@.lobby_regions.get(lobby_id) {
                Some(region) => r == Ok::<Region, GameSyncError>(region),
                None => r == Err::<Region, GameSyncError>(GameSyncError::LobbyFindError),
            },
    {
        match self.data_store.get_region_lobby(lobby_id) {
            Some(region) => Ok(region),
            None => Err(GameSyncError::LobbyFindError),
        }
    }

    /// The lobby with the identifier, with the region it is found under.
    fn find_lobby(&self, lobby_id: LobbyID) -> (r: Result<(Region, Lobby), GameSyncError>)
        requires
            self.wf(),
        ensures
            match find_lobby(self@, lobby_id) {
                Some(lobby) => r is Ok && r->Ok_0.0 == self@.lobby_regions[lobby_id] && r->Ok_0.1@ == lobby,
                None => r is Err && r->Err_0 == GameSyncError::LobbyFindError,
            },
    {
        match self.find_region_lobby(lobby_id) {
            Err(e) => Err(e),
            Ok(region) => match self.data_store.get_lobby(region, lobby_id) {
                Some(lobby) => Ok((region, lobby)),
                None => Err(GameSyncError::LobbyFindError),
            },
        }
    }

    /// The profile and current lobby of a registered player.
    fn find_player(&self, player_id: PlayerID) -> (r: Result<PlayerInfo, GameSyncError>)
        ensures
            match self@.players.get(player_id) {
                Some(info) => r == Ok::<PlayerInfo, GameSyncError>(info),
                None => r == Err::<PlayerInfo, GameSyncError>(GameSyncError::PlayerFindError),
            },
    {
        match self.data_store.get_player_info(player_id) {
            Some(info) => Ok(info),
            None => Err(GameSyncError::PlayerFindError),
        }
    }

    /// Adds to `out` the sending of a notification to a player. Fails, and
    /// adds nothing, where the player is not connected.
    pub fn send_to_client(&self, to: PlayerID, event: ServerEvent, out: &mut Vec<Action>) -> (r: Result<
        (),
        GameSyncError,
    >)
        ensures
            match self@.user_endpoints.get(to) {
                Some(endpoint) => r is Ok && action_views(final(out)@) == action_views(old(out)@).push(
                    ActionView::Send { endpoint: endpoint, event: event@ },
                ),
                None => r == Err::<(), GameSyncError>(GameSyncError::SendError) && final(out)@ == old(out)@,
            },
    {
        match self.data_store.get_user_endpoint(to) {
            Some(endpoint) => {
                out.push(Action::Send { endpoint, event });
                assert(action_views(out@) =~= action_views(old(out)@).push(
                    ActionView::Send { endpoint: endpoint, event: event@ },
                ));
                Ok(())
            },
            None => Err(GameSyncError::SendError),
        }
    }

    /// Adds to `out` the sending of each of the notifications to a player,
    /// in order; nothing where the player is not connected.
    fn send_all_to(&self, to: PlayerID, events: &Vec<ServerEvent>, out: &mut Vec<Action>)
        ensures
            action_views(final(out)@) == action_views(old(out)@) + to_player(self@.user_endpoints, to, event_views(events@)),
    {
        let ghost s = self@;
        let ghost base = action_views(out@);
        match self.data_store.get_user_endpoint(to) {
            None => {
                assert(base + to_player(s.user_endpoints, to, event_views(events@)) =~= base);
            },
            Some(endpoint) => {
                let mut i: usize = 0;
                while i < events.len()
                    invariant
                        i <= events@.len(),
                        s == self@,
                        s.user_endpoints.contains_key(to),
                        s.user_endpoints[to] == endpoint,
                        action_views(out@) == base + to_player(s.user_endpoints, to, event_views(events@.take(i as int))),
                    decreases events@.len() - i,
                {
                    let ghost before = out@;
                    out.push(Action::Send { endpoint, event: events[i].clone() });
                    proof {
                        assert(action_views(out@) =~= action_views(before).push(out@[before.len() as int]@));
                        assert(event_views(events@.take(i + 1)) =~= event_views(events@.take(i as int)).push(
                            events@[i as int]@,
                        ));
                        assert(to_player(s.user_endpoints, to, event_views(events@.take(i + 1))) =~= to_player(
                            s.user_endpoints,
                            to,
                            event_views(events@.take(i as int)),
                        ).push(ActionView::Send { endpoint: endpoint, event: events@[i as int]@ }));
                    }
                    i += 1;
                }
                assert(events@.take(events@.len() as int) == events@);
            },
        }
    }

    /// Adds to `out` the sending of the notifications to each member in
    /// turn.
    fn send_each(&self, members: &Vec<PlayerID>, events: &Vec<ServerEvent>, out: &mut Vec<Action>)
        ensures
            action_views(final(out)@) == action_views(old(out)@) + fan_out(
                self@.user_endpoints,
                members@,
                each(event_views(events@)),
            ),
    {
        let ghost s = self@;
        let ghost base = action_views(out@);
        let ghost f = each(event_views(events@));
        let mut i: usize = 0;
        assert(base + fan_out(s.user_endpoints, members@.take(0), f) =~= base);
        while i < members.len()
            invariant
                i <= members@.len(),
                s == self@,
                f == each(event_views(events@)),
                action_views(out@) == base + fan_out(s.user_endpoints, members@.take(i as int), f),
            decreases members@.len() - i,
        {
            self.send_all_to(members[i], events, out);
            proof {
                let next = members@.take(i + 1);
                assert(next.drop_last() == members@.take(i as int));
                assert(next.last() == members@[i as int]);
                assert(action_views(out@) =~= base + fan_out(s.user_endpoints, next, f));
            }
            i += 1;
        }
        assert(members@.take(members@.len() as int) == members@);
    }

    /// Adds to `out` what the members of a destroyed lobby are told, but
    /// for the member `skip`.
    fn send_farewell(&self, members: &Vec<PlayerID>, lobby_id: LobbyID, skip: Option<PlayerID>, out: &mut Vec<Action>)
        ensures
            action_views(final(out)@) == action_views(old(out)@) + fan_out(self@.user_endpoints, members@, farewell(lobby_id, skip)),
    {
        let ghost s = self@;
        let ghost base = action_views(out@);
        let ghost f = farewell(lobby_id, skip);
        let mut i: usize = 0;
        assert(base + fan_out(s.user_endpoints, members@.take(0), f) =~= base);
        while i < members.len()
            invariant
                i <= members@.len(),
                s == self@,
                f == farewell(lobby_id, skip),
                action_views(out@) == base + fan_out(s.user_endpoints, members@.take(i as int), f),
            decreases members@.len() - i,
        {
            let member = members[i];
            let skipped = match skip {
                Some(p) => p == member,
                None => false,
            };
            let mut events: Vec<ServerEvent> = Vec::new();
            if !skipped {
                events.push(ServerEvent::LobbyLeft(member, lobby_id));
                events.push(ServerEvent::LobbyDeleted(lobby_id));
            }
            assert(event_views(events@) =~= f(member));
            self.send_all_to(member, &events, out);
            proof {
                let next = members@.take(i + 1);
                assert(next.drop_last() == members@.take(i as int));
                assert(next.last() == members@[i as int]);
                assert(action_views(out@) =~= base + fan_out(s.user_endpoints, next, f));
            }
            i += 1;
        }
        assert(members@.take(members@.len() as int) == members@);
    }

    /// Adds to `out` the sending of a notification to every connected
    /// endpoint but `msg_sender`, in the order of `pairs`, which lists the
    /// connected players.
    fn send_to_listed(pairs: &Vec<(PlayerID, EndpointID)>, msg_sender: EndpointID, event: &ServerEvent, out: &mut Vec<Action>)
        ensures
            action_views(final(out)@) == action_views(old(out)@) + broadcast_to(pairs@, msg_sender, event@),
    {
        let ghost base = action_views(out@);
        let mut i: usize = 0;
        assert(base + broadcast_to(pairs@.take(0), msg_sender, event@) =~= base);
        while i < pairs.len()
            invariant
                i <= pairs@.len(),
                action_views(out@) == base + broadcast_to(pairs@.take(i as int), msg_sender, event@),
            decreases pairs@.len() - i,
        {
            let ghost before = out@;
            proof {
                let next = pairs@.take(i + 1);
                assert(next.drop_last() == pairs@.take(i as int));
                assert(next.last() == pairs@[i as int]);
            }
            if pairs[i].1 != msg_sender {
                out.push(Action::Send { endpoint: pairs[i].1, event: event.clone() });
                proof {
                    assert(action_views(out@) =~= action_views(before).push(out@[before.len() as int]@));
                    assert(action_views(out@) =~= base + broadcast_to(pairs@.take(i + 1), msg_sender, event@));
                }
            }
            i += 1;
        }
        assert(pairs@.take(pairs@.len() as int) == pairs@);
    }

    /// Adds to `out` the sending of a notification to every connected
    /// endpoint but `msg_sender`, in no fixed order.
    pub fn send_to_all_clients(&self, msg_sender: EndpointID, event: ServerEvent, out: &mut Vec<Action>)
        ensures
            exists|pairs: Seq<(PlayerID, EndpointID)>|
                lists_ids(pairs, self@.user_endpoints) && action_views(final(out)@) == action_views(old(out)@)
                    + broadcast_to(pairs, msg_sender, event@),
    {
        let pairs = self.data_store.list_user_endpoints();
        Self::send_to_listed(&pairs, msg_sender, &event, out);
        assert(lists_ids(pairs@, self@.user_endpoints) && action_views(out@) == action_views(old(out)@)
            + broadcast_to(pairs@, msg_sender, event@));
    }
}

impl Websocket {
    /// Takes each registered member out of its lobby.
    fn clear_members(&mut self, members: &Vec<PlayerID>)
        requires
            old(self).wf(),
        ensures
            final(self).wf(),
            final(self)@ == (StoreView { players: cleared(old(self)@.players, members@), ..old(self)@ }),
    {
        let ghost s = self@;
        let mut i: usize = 0;
        assert(self@ =~= (StoreView { players: cleared(s.players, members@.take(0)), ..s }));
        while i < members.len()
            invariant
                i <= members@.len(),
                self.wf(),
                self@ == (StoreView { players: cleared(s.players, members@.take(i as int)), ..s }),
            decreases members@.len() - i,
        {
            self.data_store.remove_player_lobby(members[i]);
            proof {
                let before = members@.take(i as int);
                let next = members@.take(i + 1);
                assert(next =~= before.push(members@[i as int]));
                assert forall|q: PlayerID| next.contains(q) == (before.contains(q) || q == members@[i as int]) by {
                    if before.contains(q) {
                        let w = choose|w: int| 0 <= w < before.len() && before[w] == q;
                        assert(next[w] == q);
                    }
                    if q == members@[i as int] {
                        assert(next[i as int] == q);
                    }
                }
                assert(self@.players =~= cleared(s.players, next));
            }
            i += 1;
        }
        assert(members@.take(members@.len() as int) == members@);
    }

    /// `CreateLobby` by the player `player_id`, with `lobby_id` as the
    /// identifier of the new lobby.
    pub fn create_lobby_with(&mut self, player_id: PlayerID, lobby_params: &LobbyParams, lobby_id: LobbyID) -> (r:
        Result<Vec<Action>, GameSyncError>)
        requires
            old(self).wf(),
        ensures
            final(self).wf(),
            consistent(old(self)@) ==> consistent(final(self)@),
            outcome_is(r, final(self)@, create_lobby_outcome(old(self)@, player_id, lobby_params@, lobby_id)),
    {
        proof {
            if consistent(self@) {
                lemma_create_lobby_keeps(self@, player_id, lobby_params@, lobby_id);
            }
        }
        let player_info = self.find_player(player_id)?;
        if player_info.1.is_some() || self.data_store.get_region_lobby(lobby_id).is_some() {
            return Err(GameSyncError::LobbyCreateError);
        }
        let mut player_list: Vec<PlayerID> = Vec::new();
        player_list.push(player_id);
        let lobby = Lobby {
            lobby_id,
            params: lobby_params.clone(),
            leader: player_id,
            status: LobbyStatus::Idle,
            player_list,
            queue_threshold: 0,
        };
        assert(lobby@ =~= fresh_lobby(lobby_id, lobby_params@, player_id));
        let mut out: Vec<Action> = Vec::new();
        let mut events: Vec<ServerEvent> = Vec::new();
        events.push(ServerEvent::LobbyCreated(lobby.clone()));
        assert(event_views(events@) =~= seq![EventView::LobbyCreated(lobby@)]);
        self.send_all_to(player_id, &events, &mut out);
        assert(action_views(out@) =~= to_player(self@.user_endpoints, player_id, seq![EventView::LobbyCreated(lobby@)]));
        self.data_store.create_lobby(lobby_params.region, lobby_id, lobby);
        self.data_store.create_region_lobby(lobby_id, lobby_params.region);
        self.data_store.edit_player(player_id, None, Some(lobby_id));
        Ok(out)
    }

    /// `CreateLobby` by the player `player_id`: as
    /// [`Websocket::create_lobby_with`], with a newly minted identifier.
    pub fn create_lobby(&mut self, player_id: PlayerID, lobby_params: &LobbyParams) -> (r: Result<
        Vec<Action>,
        GameSyncError,
    >)
        requires
            old(self).wf(),
        ensures
            final(self).wf(),
            consistent(old(self)@) ==> consistent(final(self)@),
            exists|lobby_id: LobbyID|
                is_random_uuid(lobby_id) && outcome_is(
                    r,
                    final(self)@,
                    #[trigger] create_lobby_outcome(old(self)@, player_id, lobby_params@, lobby_id),
                ),
    {
        let lobby_id = mint_id();
        let r = self.create_lobby_with(player_id, lobby_params, lobby_id);
        assert(is_random_uuid(lobby_id) && outcome_is(
            r,
            self@,
            create_lobby_outcome(old(self)@, player_id, lobby_params@, lobby_id),
        ));
        r
    }

    /// `JoinLobby` by the player `player_id`.
    pub fn join_lobby(&mut self, player_id: PlayerID, lobby_id: LobbyID) -> (r: Result<Vec<Action>, GameSyncError>)
        requires
            old(self).wf(),
        ensures
            final(self).wf(),
            consistent(old(self)@) ==> consistent(final(self)@),
            outcome_is(r, final(self)@, join_lobby_outcome(old(self)@, player_id, lobby_id)),
    {
        proof {
            if consistent(self@) {
                lemma_join_lobby_keeps(self@, player_id, lobby_id);
            }
        }
        let player_info = self.find_player(player_id)?;
        if player_info.1.is_some() {
            return Err(GameSyncError::LobbyJoinError);
        }
        let (region, mut lobby) = self.find_lobby(lobby_id)?;
        if lobby.player_list.len() >= self.data_store.lobby_size() {
            return Err(GameSyncError::LobbyFullError);
        }
        lobby.player_list.push(player_id);
        let mut out: Vec<Action> = Vec::new();
        let mut events: Vec<ServerEvent> = Vec::new();
        events.push(ServerEvent::LobbyJoined(player_id, lobby_id));
        assert(event_views(events@) =~= seq![EventView::LobbyJoined(player_id, lobby_id)]);
        self.send_each(&lobby.player_list, &events, &mut out);
        assert(action_views(out@) =~= fan_out(
            self@.user_endpoints,
            lobby@.players,
            each(seq![EventView::LobbyJoined(player_id, lobby_id)]),
        ));
        let _ = self.data_store.edit_lobby(region, lobby_id, lobby);
        self.data_store.edit_player(player_id, None, Some(lobby_id));
        Ok(out)
    }

    /// `DeleteLobby` by the player `player_id`.
    pub fn delete_lobby(&mut self, player_id: PlayerID, lobby_id: LobbyID) -> (r: Result<Vec<Action>, GameSyncError>)
        requires
            old(self).wf(),
        ensures
            final(self).wf(),
            consistent(old(self)@) ==> consistent(final(self)@),
            outcome_is(r, final(self)@, delete_lobby_outcome(old(self)@, player_id, lobby_id)),
    {
        proof {
            if consistent(self@) {
                lemma_delete_lobby_keeps(self@, player_id, lobby_id);
            }
        }
        let (region, lobby) = self.find_lobby(lobby_id)?;
        if player_id != lobby.leader {
            return Err(GameSyncError::LobbyOwnerError);
        }
        if lobby.status != LobbyStatus::Idle {
            return Err(GameSyncError::LobbyDeleteError);
        }
        let mut out: Vec<Action> = Vec::new();
        self.send_farewell(&lobby.player_list, lobby_id, None, &mut out);
        assert(action_views(out@) =~= fan_out(self@.user_endpoints, lobby@.players, farewell(lobby_id, None)));
        self.destroy(region, lobby_id, &lobby.player_list);
        Ok(out)
    }

    /// Takes a lobby out of its bucket and out of the index, and its
    /// members out of it.
    fn destroy(&mut self, region: Region, lobby_id: LobbyID, members: &Vec<PlayerID>)
        requires
            old(self).wf(),
        ensures
            final(self).wf(),
            final(self)@ == destroyed(old(self)@, region, lobby_id, members@),
    {
        let _ = self.data_store.delete_lobby(region, lobby_id);
        let _ = self.data_store.delete_region_lobby(lobby_id);
        self.clear_members(members);
    }

    /// `MessageLobby` by the player `player_id`.
    pub fn message_lobby(&mut self, player_id: PlayerID, lobby_id: LobbyID, message: String) -> (r: Result<
        Vec<Action>,
        GameSyncError,
    >)
        requires
            old(self).wf(),
        ensures
            final(self).wf(),
            consistent(old(self)@) ==> consistent(final(self)@),
            outcome_is(r, final(self)@, message_lobby_outcome(old(self)@, player_id, lobby_id, message@)),
    {
        let player_info = self.find_player(player_id)?;
        match player_info.1 {
            None => Err(GameSyncError::LobbyPlayerError),
            Some(player_lobby) => {
                if lobby_id != player_lobby {
                    return Err(GameSyncError::LobbyMessageError);
                }
                let (_, lobby) = self.find_lobby(lobby_id)?;
                let mut out: Vec<Action> = Vec::new();
                let mut events: Vec<ServerEvent> = Vec::new();
                events.push(ServerEvent::LobbyMessage(player_id, message));
                assert(event_views(events@) =~= seq![EventView::LobbyMessage(player_id, message@)]);
                self.send_each(&lobby.player_list, &events, &mut out);
                assert(action_views(out@) =~= fan_out(
                    self@.user_endpoints,
                    lobby@.players,
                    each(seq![EventView::LobbyMessage(player_id, message@)]),
                ));
                Ok(out)
            },
        }
    }

    /// `InviteLobby` by the player `player_id`.
    pub fn invite_lobby(&mut self, player_id: PlayerID, lobby_id: LobbyID, invitee_id: PlayerID) -> (r: Result<
        Vec<Action>,
        GameSyncError,
    >)
        requires
            old(self).wf(),
        ensures
            final(self).wf(),
            consistent(old(self)@) ==> consistent(final(self)@),
            outcome_is(r, final(self)@, invite_lobby_outcome(old(self)@, player_id, lobby_id, invitee_id)),
    {
        let player_info = self.find_player(player_id)?;
        match player_info.1 {
            None => Err(GameSyncError::LobbyInviteError),
            Some(player_lobby) => {
                if player_lobby != lobby_id {
                    return Err(GameSyncError::LobbyCurInviteError);
                }
                let mut out: Vec<Action> = Vec::new();
                self.send_to_client(invitee_id, ServerEvent::LobbyInvited(lobby_id), &mut out)?;
                assert(action_views(out@) =~= to_player(self@.user_endpoints, invitee_id, seq![EventView::LobbyInvited(lobby_id)]));
                Ok(out)
            },
        }
    }

    /// `GetPublicLobbies` by the player `player_id`: the player is sent the
    /// public lobbies of the region, in no fixed order.
    pub fn get_public_lobbies(&mut self, player_id: PlayerID, region: Region) -> (r: Result<
        Vec<Action>,
        GameSyncError,
    >)
        requires
            old(self).wf(),
        ensures
            final(self).wf(),
            consistent(old(self)@) ==> consistent(final(self)@),
            exists|list: Seq<LobbyView>|
                lists_public(list, old(self)@, region) && outcome_is(
                    r,
                    final(self)@,
                    #[trigger] public_lobbies_outcome(old(self)@, player_id, list),
                ),
    {
        let public_lobbies = self.data_store.get_region_lobbies(region);
        let ghost list = lobby_views(public_lobbies@);
        let mut out: Vec<Action> = Vec::new();
        let mut events: Vec<ServerEvent> = Vec::new();
        events.push(ServerEvent::PublicLobbies(public_lobbies));
        assert(event_views(events@) =~= seq![EventView::PublicLobbies(list)]);
        self.send_all_to(player_id, &events, &mut out);
        assert(action_views(out@) =~= to_player(self@.user_endpoints, player_id, seq![EventView::PublicLobbies(list)]));
        let r = Ok(out);
        assert(outcome_is(r, self@, public_lobbies_outcome(old(self)@, player_id, list)));
        r
    }

    /// `EditPlayer` by the player `player_id`: the player takes the rating
    /// of `player`.
    pub fn edit_player(&mut self, player_id: PlayerID, player: Player) -> (r: Result<Vec<Action>, GameSyncError>)
        requires
            old(self).wf(),
        ensures
            final(self).wf(),
            consistent(old(self)@) ==> consistent(final(self)@),
            outcome_is(r, final(self)@, edit_player_outcome(old(self)@, player_id, player)),
    {
        proof {
            if consistent(self@) {
                lemma_edit_player_keeps(self@, player_id, player);
            }
        }
        let player_info = self.find_player(player_id)?;
        if let Some(lobby_id) = player_info.1 {
            let (_, lobby) = self.find_lobby(lobby_id)?;
            if lobby.status != LobbyStatus::Idle {
                return Err(GameSyncError::PlayerEditError);
            }
        }
        let mut out: Vec<Action> = Vec::new();
        let mut events: Vec<ServerEvent> = Vec::new();
        events.push(ServerEvent::PlayerEdited(player_id));
        assert(event_views(events@) =~= seq![EventView::PlayerEdited(player_id)]);
        self.send_all_to(player_id, &events, &mut out);
        assert(action_views(out@) =~= to_player(self@.user_endpoints, player_id, seq![EventView::PlayerEdited(player_id)]));
        self.data_store.edit_player(player_id, Some(Player { player_id, rating: player.rating }), None);
        Ok(out)
    }

    /// `LeaveGameAsLobby` by the player `player_id`.
    pub fn leave_game_as_lobby(&mut self, player_id: PlayerID, lobby_id: LobbyID) -> (r: Result<
        Vec<Action>,
        GameSyncError,
    >)
        requires
            old(self).wf(),
        ensures
            final(self).wf(),
            consistent(old(self)@) ==> consistent(final(self)@),
            outcome_is(r, final(self)@, leave_game_outcome(old(self)@, player_id, lobby_id)),
    {
        proof {
            if consistent(self@) {
                lemma_leave_game_keeps(self@, player_id, lobby_id);
            }
        }
        let (region, mut lobby) = self.find_lobby(lobby_id)?;
        if player_id != lobby.leader {
            return Err(GameSyncError::LobbyOwnerError);
        }
        if lobby.status != LobbyStatus::Ingame {
            return Err(GameSyncError::LeaveGameError);
        }
        lobby.status = LobbyStatus::Idle;
        let mut out: Vec<Action> = Vec::new();
        let mut events: Vec<ServerEvent> = Vec::new();
        events.push(ServerEvent::LeftGame(lobby_id));
        assert(event_views(events@) =~= seq![EventView::LeftGame(lobby_id)]);
        self.send_each(&lobby.player_list, &events, &mut out);
        assert(action_views(out@) =~= fan_out(self@.user_endpoints, lobby@.players, each(seq![EventView::LeftGame(lobby_id)])));
        let _ = self.data_store.edit_lobby(region, lobby_id, lobby);
        Ok(out)
    }

    /// `GetLobbyInfo` by the player `player_id`.
    pub fn get_lobby_info(&mut self, player_id: PlayerID, lobby_id: LobbyID) -> (r: Result<
        Vec<Action>,
        GameSyncError,
    >)
        requires
            old(self).wf(),
        ensures
            final(self).wf(),
            consistent(old(self)@) ==> consistent(final(self)@),
            outcome_is(r, final(self)@, lobby_info_outcome(old(self)@, player_id, lobby_id)),
    {
        let (_, lobby) = self.find_lobby(lobby_id)?;
        let mut out: Vec<Action> = Vec::new();
        let mut events: Vec<ServerEvent> = Vec::new();
        let ghost view = lobby@;
        events.push(ServerEvent::LobbyInfo(lobby));
        assert(event_views(events@) =~= seq![EventView::LobbyInfo(view)]);
        self.send_all_to(player_id, &events, &mut out);
        assert(action_views(out@) =~= to_player(self@.user_endpoints, player_id, seq![EventView::LobbyInfo(view)]));
        Ok(out)
    }
}

impl Websocket {
    /// Takes a lobby out of the queue of a mode in a region.
    fn dequeue(&mut self, region: Region, mode: GameMode, lobby_id: LobbyID)
        requires
            old(self).wf(),
        ensures
            final(self).wf(),
            final(self)@ == dequeued(old(self)@, region, mode, lobby_id),
    {
        match mode {
            GameMode::Casual => {
                self.data_store.remove_casual_lobby(region, lobby_id);
            },
            GameMode::Competitive => {
                self.data_store.remove_competitive_lobby(region, lobby_id);
            },
        }
    }

    /// Lets a player go from a lobby of `region`: see [`departed`].
    fn depart(&mut self, player_id: PlayerID, region: Region, lobby_id: LobbyID, lobby: Lobby)
        requires
            old(self).wf(),
            region == old(self)@.lobby_regions[lobby_id],
        ensures
            final(self).wf(),
            final(self)@ == departed(old(self)@, player_id, lobby_id, lobby@),
    {
        let was_queueing = lobby.status == LobbyStatus::Queueing;
        if was_queueing {
            self.dequeue(region, lobby.params.mode, lobby_id);
        }
        if player_id == lobby.leader {
            self.destroy(region, lobby_id, &lobby.player_list);
        } else {
            let rest = Lobby {
                lobby_id: lobby.lobby_id,
                params: lobby.params,
                leader: lobby.leader,
                status: if was_queueing {
                    LobbyStatus::Idle
                } else {
                    lobby.status
                },
                player_list: remove_member(&lobby.player_list, player_id),
                queue_threshold: lobby.queue_threshold,
            };
            let _ = self.data_store.edit_lobby(region, lobby_id, rest);
            self.data_store.remove_player_lobby(player_id);
        }
    }

    /// The notifications for the members that stay when `leaver` leaves.
    fn departure_events(lobby_id: LobbyID, leaver: PlayerID, was_queueing: bool) -> (events: Vec<ServerEvent>)
        ensures
            event_views(events@) == departure(lobby_id, leaver, was_queueing),
    {
        let mut events: Vec<ServerEvent> = Vec::new();
        if was_queueing {
            events.push(ServerEvent::QueueStopped(lobby_id));
        }
        events.push(ServerEvent::LobbyLeft(leaver, lobby_id));
        assert(event_views(events@) =~= departure(lobby_id, leaver, was_queueing));
        events
    }

    /// `LeaveLobby` by the player `player_id`.
    pub fn leave_lobby(&mut self, player_id: PlayerID, lobby_id: LobbyID) -> (r: Result<Vec<Action>, GameSyncError>)
        requires
            old(self).wf(),
        ensures
            final(self).wf(),
            consistent(old(self)@) ==> consistent(final(self)@),
            outcome_is(r, final(self)@, leave_lobby_outcome(old(self)@, player_id, lobby_id)),
    {
        proof {
            if consistent(self@) {
                lemma_leave_lobby_keeps(self@, player_id, lobby_id);
            }
        }
        let (region, lobby) = self.find_lobby(lobby_id)?;
        if !is_member(&lobby.player_list, player_id) {
            return Err(GameSyncError::LobbyInviteError);
        }
        let ghost s = self@;
        let mut out: Vec<Action> = Vec::new();
        if player_id == lobby.leader {
            self.send_farewell(&lobby.player_list, lobby_id, None, &mut out);
            assert(action_views(out@) =~= fan_out(s.user_endpoints, lobby@.players, farewell(lobby_id, None)));
        } else {
            let mut own: Vec<ServerEvent> = Vec::new();
            own.push(ServerEvent::LobbyLeft(player_id, lobby_id));
            assert(event_views(own@) =~= seq![EventView::LobbyLeft(player_id, lobby_id)]);
            self.send_all_to(player_id, &own, &mut out);
            let rest = remove_member(&lobby.player_list, player_id);
            let events = Self::departure_events(lobby_id, player_id, lobby.status == LobbyStatus::Queueing);
            self.send_each(&rest, &events, &mut out);
            assert(action_views(out@) =~= to_player(
                s.user_endpoints,
                player_id,
                seq![EventView::LobbyLeft(player_id, lobby_id)],
            ) + fan_out(
                s.user_endpoints,
                without(lobby@.players, player_id),
                each(departure(lobby_id, player_id, lobby@.status == LobbyStatus::Queueing)),
            ));
        }
        self.depart(player_id, region, lobby_id, lobby);
        Ok(out)
    }

    /// `QueueLobby` by the player `player_id`.
    pub fn queue_lobby(&mut self, player_id: PlayerID, lobby_id: LobbyID) -> (r: Result<Vec<Action>, GameSyncError>)
        requires
            old(self).wf(),
        ensures
            final(self).wf(),
            consistent(old(self)@) ==> consistent(final(self)@),
            outcome_is(r, final(self)@, queue_lobby_outcome(old(self)@, player_id, lobby_id)),
    {
        proof {
            if consistent(self@) {
                lemma_queue_lobby_keeps(self@, player_id, lobby_id);
            }
        }
        let (region, mut lobby) = self.find_lobby(lobby_id)?;
        if player_id != lobby.leader {
            return Err(GameSyncError::LobbyOwnerError);
        }
        if lobby.status != LobbyStatus::Idle {
            return Err(GameSyncError::LobbyQueueError);
        }
        if lobby.player_list.len() != self.data_store.lobby_size() {
            return Err(GameSyncError::LobbySizeError);
        }
        let ghost s = self@;
        let ghost found = lobby@;
        lobby.status = LobbyStatus::Queueing;
        assert(lobby@ == with_status(found, LobbyStatus::Queueing));
        let mut out: Vec<Action> = Vec::new();
        let mut events: Vec<ServerEvent> = Vec::new();
        events.push(ServerEvent::LobbyQueued(lobby_id));
        assert(event_views(events@) =~= seq![EventView::LobbyQueued(lobby_id)]);
        self.send_each(&lobby.player_list, &events, &mut out);
        assert(action_views(out@) =~= fan_out(
            s.user_endpoints,
            found.players,
            each(seq![EventView::LobbyQueued(lobby_id)]),
        ));
        match lobby.params.mode {
            GameMode::Casual => {
                self.data_store.add_casual_lobby(region, lobby.clone());
            },
            GameMode::Competitive => {
                self.data_store.add_competitive_lobby(region, lobby.clone());
            },
        }
        assert(self@ == enqueued(s, region, lobby@));
        let _ = self.data_store.edit_lobby(region, lobby_id, lobby);
        Ok(out)
    }

    /// Makes a match final: both lobbies enter the game, the requester with
    /// the tolerance that found the match, and the members of each are told
    /// of the other.
    fn finalize_match(&mut self, region: Region, lobbies: (Lobby, Lobby), threshold: usize) -> (out: Vec<Action>)
        requires
            old(self).wf(),
        ensures
            final(self).wf(),
            final(self)@ == finalized(old(self)@, region, lobbies.0@, lobbies.1@, threshold),
            action_views(out@) == match_actions(old(self)@, lobbies.0@, lobbies.1@, threshold),
    {
        let ghost s = self@;
        let (mut lobby1, mut lobby2) = lobbies;
        let ghost a = lobby1@;
        let ghost b = lobby2@;
        lobby1.status = LobbyStatus::Ingame;
        lobby1.queue_threshold = threshold;
        lobby2.status = LobbyStatus::Ingame;
        assert(lobby1@ == matched_requester(a, threshold));
        assert(lobby2@ == with_status(b, LobbyStatus::Ingame));
        let mut out: Vec<Action> = Vec::new();
        let mut for_first: Vec<ServerEvent> = Vec::new();
        for_first.push(ServerEvent::MatchFound(lobby2.clone()));
        assert(event_views(for_first@) =~= seq![EventView::MatchFound(lobby2@)]);
        self.send_each(&lobby1.player_list, &for_first, &mut out);
        let mut for_second: Vec<ServerEvent> = Vec::new();
        for_second.push(ServerEvent::MatchFound(lobby1.clone()));
        assert(event_views(for_second@) =~= seq![EventView::MatchFound(lobby1@)]);
        self.send_each(&lobby2.player_list, &for_second, &mut out);
        assert(action_views(out@) =~= match_actions(s, a, b, threshold));
        let id1 = lobby1.lobby_id;
        let id2 = lobby2.lobby_id;
        let _ = self.data_store.edit_lobby(region, id1, lobby1);
        let _ = self.data_store.edit_lobby(region, id2, lobby2);
        out
    }

    /// `CheckMatch` by the player `player_id`, tolerating `threshold`.
    pub fn check_match(&mut self, player_id: PlayerID, lobby_id: LobbyID, threshold: usize) -> (r: Result<
        Vec<Action>,
        GameSyncError,
    >)
        requires
            old(self).wf(),
        ensures
            final(self).wf(),
            consistent(old(self)@) ==> consistent(final(self)@),
            outcome_is(r, final(self)@, check_match_outcome(old(self)@, player_id, lobby_id, threshold)),
    {
        proof {
            if consistent(self@) {
                lemma_check_match_keeps(self@, player_id, lobby_id, threshold);
            }
        }
        let (region, lobby) = self.find_lobby(lobby_id)?;
        if player_id != lobby.leader {
            return Err(GameSyncError::LobbyOwnerError);
        }
        if lobby.status != LobbyStatus::Queueing {
            return Err(GameSyncError::LobbyCheckError);
        }
        let ghost s = self@;
        let found = match lobby.params.mode {
            GameMode::Casual => self.data_store.check_casual_lobby(region, lobby_id),
            GameMode::Competitive => self.data_store.check_competitive_lobby(region, lobby_id, threshold),
        };
        match found {
            Some(lobbies) => {
                proof {
                    let pair = match_pair(s, region, lobby@.params.mode, lobby_id, threshold);
                    assert(pair is Some);
                    assert(self@ == unqueued_pair(s, region, lobby@.params.mode, pair->Some_0.0, pair->Some_0.1));
                }
                Ok(self.finalize_match(region, lobbies, threshold))
            },
            None => {
                let mut out: Vec<Action> = Vec::new();
                let mut events: Vec<ServerEvent> = Vec::new();
                events.push(ServerEvent::MatchNotFound);
                assert(event_views(events@) =~= seq![EventView::MatchNotFound]);
                self.send_all_to(player_id, &events, &mut out);
                assert(action_views(out@) =~= to_player(s.user_endpoints, player_id, seq![EventView::MatchNotFound]));
                Ok(out)
            },
        }
    }

    /// `StopQueue` by the player `player_id`.
    pub fn stop_queue(&mut self, player_id: PlayerID, lobby_id: LobbyID) -> (r: Result<Vec<Action>, GameSyncError>)
        requires
            old(self).wf(),
        ensures
            final(self).wf(),
            consistent(old(self)@) ==> consistent(final(self)@),
            outcome_is(r, final(self)@, stop_queue_outcome(old(self)@, player_id, lobby_id)),
    {
        proof {
            if consistent(self@) {
                lemma_stop_queue_keeps(self@, player_id, lobby_id);
            }
        }
        let (region, mut lobby) = self.find_lobby(lobby_id)?;
        if player_id != lobby.leader {
            return Err(GameSyncError::LobbyOwnerError);
        }
        if lobby.status != LobbyStatus::Queueing {
            return Err(GameSyncError::LobbyStopError);
        }
        let ghost s = self@;
        let ghost found = lobby@;
        lobby.status = LobbyStatus::Idle;
        assert(lobby@ == with_status(found, LobbyStatus::Idle));
        let mut out: Vec<Action> = Vec::new();
        let mut events: Vec<ServerEvent> = Vec::new();
        events.push(ServerEvent::QueueStopped(lobby_id));
        assert(event_views(events@) =~= seq![EventView::QueueStopped(lobby_id)]);
        self.send_each(&lobby.player_list, &events, &mut out);
        assert(action_views(out@) =~= fan_out(
            s.user_endpoints,
            found.players,
            each(seq![EventView::QueueStopped(lobby_id)]),
        ));
        self.dequeue(region, lobby.params.mode, lobby_id);
        let _ = self.data_store.edit_lobby(region, lobby_id, lobby);
        Ok(out)
    }

    /// `Broadcast` by the player `player_id`, connected at `endpoint`: the
    /// message goes to every other connected endpoint, in no fixed order.
    pub fn broadcast(&mut self, player_id: PlayerID, endpoint: EndpointID, message: String) -> (r: Result<
        Vec<Action>,
        GameSyncError,
    >)
        requires
            old(self).wf(),
        ensures
            final(self).wf(),
            consistent(old(self)@) ==> consistent(final(self)@),
            exists|pairs: Seq<(PlayerID, EndpointID)>|
                lists_ids(pairs, old(self)@.user_endpoints) && outcome_is(
                    r,
                    final(self)@,
                    #[trigger] broadcast_outcome(old(self)@, player_id, endpoint, message@, pairs),
                ),
    {
        let pairs = self.data_store.list_user_endpoints();
        let mut out: Vec<Action> = Vec::new();
        let event = ServerEvent::UserMessage(player_id, message);
        Self::send_to_listed(&pairs, endpoint, &event, &mut out);
        assert(action_views(out@) =~= broadcast_to(pairs@, endpoint, event@));
        let r = Ok(out);
        assert(outcome_is(r, self@, broadcast_outcome(old(self)@, player_id, endpoint, message@, pairs@)));
        r
    }

    /// `SendTo` by the player `player_id`: the message goes to the player
    /// whose identifier `target` is the text of.
    pub fn send_to(&mut self, player_id: PlayerID, target: String, message: String) -> (r: Result<
        Vec<Action>,
        GameSyncError,
    >)
        requires
            old(self).wf(),
        ensures
            final(self).wf(),
            consistent(old(self)@) ==> consistent(final(self)@),
            outcome_is(r, final(self)@, send_to_outcome(old(self)@, player_id, target@, message@)),
    {
        match parse_uuid(target.as_str()) {
            None => Err(GameSyncError::UuidError),
            Some(to) => {
                let mut out: Vec<Action> = Vec::new();
                self.send_to_client(to, ServerEvent::UserMessage(player_id, message), &mut out)?;
                assert(action_views(out@) =~= to_player(
                    self@.user_endpoints,
                    to,
                    seq![EventView::UserMessage(player_id, message@)],
                ));
                Ok(out)
            },
        }
    }

    /// A connection at `endpoint`, with `player_id` as the identifier of
    /// the new player: see [`connect_outcome`]. The others are told in no
    /// fixed order.
    pub fn connect(&mut self, endpoint: EndpointID, player_id: PlayerID) -> (r: Result<Vec<Action>, GameSyncError>)
        requires
            old(self).wf(),
        ensures
            final(self).wf(),
            consistent(old(self)@) ==> consistent(final(self)@),
            exists|pairs: Seq<(PlayerID, EndpointID)>|
                lists_ids(pairs, final(self)@.user_endpoints) && outcome_is(
                    r,
                    final(self)@,
                    #[trigger] connect_outcome(old(self)@, endpoint, player_id, pairs),
                ),
    {
        if self.data_store.get_user(endpoint).is_some() || self.data_store.get_user_endpoint(player_id).is_some()
            || self.data_store.get_player_info(player_id).is_some() {
            let pairs = self.data_store.list_user_endpoints();
            let r = Err(GameSyncError::SendError);
            assert(outcome_is(r, self@, connect_outcome(old(self)@, endpoint, player_id, pairs@)));
            return r;
        }
        self.data_store.add_user_endpoint_with(endpoint, player_id);
        self.data_store.add_player(player_id, Player { player_id, rating: 0 });
        let text = uuid_text(player_id);
        let mut out: Vec<Action> = Vec::new();
        out.push(Action::Send { endpoint, event: ServerEvent::SelfPlayer(text.clone()) });
        out.push(Action::Wait { millis: GREETING_PAUSE_MS });
        assert(action_views(out@) =~= seq![
            ActionView::Send { endpoint: endpoint, event: EventView::SelfPlayer(uuid_text_of(player_id)) },
            ActionView::Wait { millis: GREETING_PAUSE_MS },
        ]);
        let pairs = self.data_store.list_user_endpoints();
        let event = ServerEvent::NewPlayer(text);
        Self::send_to_listed(&pairs, endpoint, &event, &mut out);
        let r = Ok(out);
        assert(outcome_is(r, self@, connect_outcome(old(self)@, endpoint, player_id, pairs@)));
        proof {
            if consistent(old(self)@) {
                lemma_connect_keeps(old(self)@, endpoint, player_id, pairs@);
            }
        }
        r
    }

    /// A connection at `endpoint`: as [`Websocket::connect`], with a newly
    /// minted identifier for the player.
    pub fn handle_new_connections(&mut self, endpoint: EndpointID) -> (r: Result<Vec<Action>, GameSyncError>)
        requires
            old(self).wf(),
        ensures
            final(self).wf(),
            consistent(old(self)@) ==> consistent(final(self)@),
            exists|player_id: PlayerID, pairs: Seq<(PlayerID, EndpointID)>|
                is_random_uuid(player_id) && lists_ids(pairs, final(self)@.user_endpoints) && outcome_is(
                    r,
                    final(self)@,
                    #[trigger] connect_outcome(old(self)@, endpoint, player_id, pairs),
                ),
    {
        let player_id = mint_id();
        self.connect(endpoint, player_id)
    }

    /// The disconnection of `endpoint`: see [`disconnect_outcome`]. Never
    /// fails.
    pub fn clean_up_player(&mut self, endpoint: EndpointID) -> (r: Result<Vec<Action>, GameSyncError>)
        requires
            old(self).wf(),
        ensures
            final(self).wf(),
            consistent(old(self)@) ==> consistent(final(self)@),
            r is Ok,
            outcome_is(r, final(self)@, disconnect_outcome(old(self)@, endpoint)),
    {
        proof {
            if consistent(self@) {
                lemma_disconnect_keeps(self@, endpoint);
            }
        }
        let ghost s = self@;
        let mut out: Vec<Action> = Vec::new();
        let player_id = match self.data_store.get_user(endpoint) {
            None => {
                assert(action_views(out@) =~= Seq::<ActionView>::empty());
                return Ok(out);
            },
            Some(p) => p,
        };
        let current = match self.data_store.get_player_info(player_id) {
            Some(info) => info.1,
            None => None,
        };
        let found = match current {
            Some(lobby_id) => match self.find_lobby(lobby_id) {
                Ok(pair) => Some((lobby_id, pair.0, pair.1)),
                Err(_) => None,
            },
            None => None,
        };
        match found {
            None => {
                assert(action_views(out@) =~= Seq::<ActionView>::empty());
            },
            Some((lobby_id, region, lobby)) => {
                if player_id == lobby.leader {
                    self.send_farewell(&lobby.player_list, lobby_id, Some(player_id), &mut out);
                    assert(action_views(out@) =~= fan_out(
                        s.user_endpoints,
                        lobby@.players,
                        farewell(lobby_id, Some(player_id)),
                    ));
                } else {
                    let rest = remove_member(&lobby.player_list, player_id);
                    let events = Self::departure_events(lobby_id, player_id, lobby.status == LobbyStatus::Queueing);
                    self.send_each(&rest, &events, &mut out);
                    assert(action_views(out@) =~= fan_out(
                        s.user_endpoints,
                        without(lobby@.players, player_id),
                        each(departure(lobby_id, player_id, lobby@.status == LobbyStatus::Queueing)),
                    ));
                }
                self.depart(player_id, region, lobby_id, lobby);
            },
        }
        self.data_store.delete_player(player_id);
        self.data_store.remove_user_endpoint(endpoint);
        Ok(out)
    }
}

/// Whether the request `event`, arrived on `endpoint` when the store was `s`,
/// was handled rightly by returning `r` and leaving the store `after`. A
/// request from an endpoint without a player is turned down; any other is
/// handled as its kind says, for the player behind the endpoint.
pub open spec fn handled(
    s: StoreView,
    endpoint: EndpointID,
    event: ClientEvent,
    r: Result<Vec<Action>, GameSyncError>,
    after: StoreView,
) -> bool {
    match s.endpoint_users.get(endpoint) {
        None => outcome_is(r, after, rejected(s, GameSyncError::UserNotFound)),
        Some(p) => match event {
            ClientEvent::Broadcast(message) => exists|pairs: Seq<(PlayerID, EndpointID)>|
                lists_ids(pairs, s.user_endpoints) && outcome_is(
                    r,
                    after,
                    #[trigger] broadcast_outcome(s, p, endpoint, message@, pairs),
                ),
            ClientEvent::SendTo(target, message) => outcome_is(r, after, send_to_outcome(s, p, target@, message@)),
            ClientEvent::CreateLobby(params) => exists|id: LobbyID|
                is_random_uuid(id) && outcome_is(r, after, #[trigger] create_lobby_outcome(s, p, params@, id)),
            ClientEvent::JoinLobby(id) => outcome_is(r, after, join_lobby_outcome(s, p, id)),
            ClientEvent::DeleteLobby(id) => outcome_is(r, after, delete_lobby_outcome(s, p, id)),
            ClientEvent::LeaveLobby(id) => outcome_is(r, after, leave_lobby_outcome(s, p, id)),
            ClientEvent::InviteLobby(id, invitee) => outcome_is(r, after, invite_lobby_outcome(s, p, id, invitee)),
            ClientEvent::GetPublicLobbies(region) => exists|list: Seq<LobbyView>|
                lists_public(list, s, region) && outcome_is(r, after, #[trigger] public_lobbies_outcome(s, p, list)),
            ClientEvent::EditPlayer(profile) => outcome_is(r, after, edit_player_outcome(s, p, profile)),
            ClientEvent::MessageLobby(id, message) => outcome_is(r, after, message_lobby_outcome(s, p, id, message@)),
            ClientEvent::QueueLobby(id) => outcome_is(r, after, queue_lobby_outcome(s, p, id)),
            ClientEvent::CheckMatch(id, threshold) => outcome_is(
                r,
                after,
                check_match_outcome(
                    s,
                    p,
                    id,
                    match threshold {
                        Some(t) => t,
                        None => 0,
                    },
                ),
            ),
            ClientEvent::StopQueue(id) => outcome_is(r, after, stop_queue_outcome(s, p, id)),
            ClientEvent::LeaveGameAsLobby(id) => outcome_is(r, after, leave_game_outcome(s, p, id)),
            ClientEvent::GetLobbyInfo(id) => outcome_is(r, after, lobby_info_outcome(s, p, id)),
        },
    }
}

impl Websocket {
    /// Handles a request that arrived on `endpoint`: see [`handled`].
    pub fn handle_messages(&mut self, endpoint: EndpointID, event: ClientEvent) -> (r: Result<
        Vec<Action>,
        GameSyncError,
    >)
        requires
            old(self).wf(),
        ensures
            final(self).wf(),
            consistent(old(self)@) ==> consistent(final(self)@),
            handled(old(self)@, endpoint, event, r, final(self)@),
    {
        let player_id = match self.data_store.get_user(endpoint) {
            Some(user) => user,
            None => {
                return Err(GameSyncError::UserNotFound);
            },
        };
        match event {
            ClientEvent::Broadcast(message) => self.broadcast(player_id, endpoint, message),
            ClientEvent::SendTo(target, message) => self.send_to(player_id, target, message),
            ClientEvent::CreateLobby(lobby_params) => self.create_lobby(player_id, &lobby_params),
            ClientEvent::JoinLobby(lobby_id) => self.join_lobby(player_id, lobby_id),
            ClientEvent::DeleteLobby(lobby_id) => self.delete_lobby(player_id, lobby_id),
            ClientEvent::LeaveLobby(lobby_id) => self.leave_lobby(player_id, lobby_id),
            ClientEvent::InviteLobby(lobby_id, invitee_id) => self.invite_lobby(player_id, lobby_id, invitee_id),
            ClientEvent::GetPublicLobbies(region) => self.get_public_lobbies(player_id, region),
            ClientEvent::EditPlayer(player) => self.edit_player(player_id, player),
            ClientEvent::MessageLobby(lobby_id, message) => self.message_lobby(player_id, lobby_id, message),
            ClientEvent::QueueLobby(lobby_id) => self.queue_lobby(player_id, lobby_id),
            ClientEvent::CheckMatch(lobby_id, threshold) => {
                let threshold = match threshold {
                    Some(t) => t,
                    None => 0,
                };
                self.check_match(player_id, lobby_id, threshold)
            },
            ClientEvent::StopQueue(lobby_id) => self.stop_queue(player_id, lobby_id),
            ClientEvent::LeaveGameAsLobby(lobby_id) => self.leave_game_as_lobby(player_id, lobby_id),
            ClientEvent::GetLobbyInfo(lobby_id) => self.get_lobby_info(player_id, lobby_id),
        }
    }
}

} // verus!
