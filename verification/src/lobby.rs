//! Players, lobbies and the enumerations that describe them.

use vstd::prelude::*;

verus! {

/// Identifier of a player: the 128-bit value of a UUID.
pub type PlayerID = u128;

/// Identifier of a lobby: the 128-bit value of a UUID.
pub type LobbyID = u128;

/// Who may see a lobby in the public listing.
#[derive(Debug, Copy, Clone, PartialEq, Eq, Structural)]
pub enum Visibility {
    Private,
    Public,
}

/// The fixed buckets by which lobbies and queues are partitioned.
#[derive(Debug, Copy, Clone, PartialEq, Eq, Hash, Structural)]
pub enum Region {
    NA,
    EU,
    SA,
    MEA,
    AS,
    AU,
}

/// The rule by which queued lobbies are paired.
#[derive(Debug, Copy, Clone, PartialEq, Eq, Structural)]
pub enum GameMode {
    Casual,
    Competitive,
}

/// Where a lobby stands in its life cycle.
#[derive(Debug, Copy, Clone, PartialEq, Eq, Structural)]
pub enum LobbyStatus {
    Idle,
    Queueing,
    Ingame,
}

/// A player's profile.
#[derive(Debug, Copy, Clone, PartialEq, Eq, Structural)]
pub struct Player {
    pub player_id: PlayerID,
    pub rating: usize,
}

/// What a lobby is created with; never changed afterwards.
#[derive(Debug)]
pub struct LobbyParams {
    pub name: String,
    pub visibility: Visibility,
    pub region: Region,
    pub mode: GameMode,
}

/// A party of players that enters matchmaking together.
#[derive(Debug)]
pub struct Lobby {
    pub lobby_id: LobbyID,
    pub params: LobbyParams,
    pub leader: PlayerID,
    pub status: LobbyStatus,
    pub player_list: Vec<PlayerID>,
    pub queue_threshold: usize,
}

/// The mathematical value of a [`LobbyParams`].
pub struct LobbyParamsView {
    pub name: Seq<char>,
    pub visibility: Visibility,
    pub region: Region,
    pub mode: GameMode,
}

/// The mathematical value of a [`Lobby`].
pub struct LobbyView {
    pub lobby_id: LobbyID,
    pub params: LobbyParamsView,
    pub leader: PlayerID,
    pub status: LobbyStatus,
    pub players: Seq<PlayerID>,
    pub queue_threshold: usize,
}

impl View for LobbyParams {
    type V = LobbyParamsView;

    open spec fn view(&self) -> LobbyParamsView {
        LobbyParamsView {
            name: self.name@,
            visibility: self.visibility,
            region: self.region,
            mode: self.mode,
        }
    }
}

impl View for Lobby {
    type V = LobbyView;

    open spec fn view(&self) -> LobbyView {
        LobbyView {
            lobby_id: self.lobby_id,
            params: self.params@,
            leader: self.leader,
            status: self.status,
            players: self.player_list@,
            queue_threshold: self.queue_threshold,
        }
    }
}

impl Clone for LobbyParams {
    fn clone(&self) -> (r: Self)
        ensures
            r@ == self@,
    {
        LobbyParams {
            name: self.name.clone(),
            visibility: self.visibility,
            region: self.region,
            mode: self.mode,
        }
    }
}

/// A copy of a list of identifiers.
pub fn copy_ids(ids: &Vec<u128>) -> (r: Vec<u128>)
    ensures
        r@ == ids@,
{
    let mut r: Vec<u128> = Vec::new();
    let mut i: usize = 0;
    while i < ids.len()
        invariant
            i <= ids.len(),
            r@ == ids@.take(i as int),
        decreases ids.len() - i,
    {
        r.push(ids[i]);
        assert(ids@.take(i + 1) == ids@.take(i as int).push(ids@[i as int]));
        i += 1;
    }
    assert(ids@.take(ids@.len() as int) == ids@);
    r
}

impl Clone for Lobby {
    fn clone(&self) -> (r: Self)
        ensures
            r@ == self@,
    {
        Lobby {
            lobby_id: self.lobby_id,
            params: self.params.clone(),
            leader: self.leader,
            status: self.status,
            player_list: copy_ids(&self.player_list),
            queue_threshold: self.queue_threshold,
        }
    }
}

/// The number of regions.
pub const REGION_COUNT: usize = 6;

impl Region {
    /// The position of the region in [`Region::all`].
    pub open spec fn spec_index(self) -> int {
        match self {
            Region::NA => 0,
            Region::EU => 1,
            Region::SA => 2,
            Region::MEA => 3,
            Region::AS => 4,
            Region::AU => 5,
        }
    }

    /// The region at a position below [`REGION_COUNT`].
    pub open spec fn spec_at(i: int) -> Region {
        if i == 0 {
            Region::NA
        } else if i == 1 {
            Region::EU
        } else if i == 2 {
            Region::SA
        } else if i == 3 {
            Region::MEA
        } else if i == 4 {
            Region::AS
        } else {
            Region::AU
        }
    }

    /// The position of the region in [`Region::all`].
    pub fn index(self) -> (i: usize)
        ensures
            i == self.spec_index(),
            i < REGION_COUNT,
            Region::spec_at(i as int) == self,
    {
        match self {
            Region::NA => 0,
            Region::EU => 1,
            Region::SA => 2,
            Region::MEA => 3,
            Region::AS => 4,
            Region::AU => 5,
        }
    }

    /// Every region once, in declaration order.
    pub fn all() -> (r: Vec<Region>)
        ensures
            r@.len() == REGION_COUNT,
            forall|i: int| 0 <= i < REGION_COUNT ==> r@[i] == Region::spec_at(i),
            forall|x: Region| r@[x.spec_index()] == x,
    {
        let r = vec![Region::NA, Region::EU, Region::SA, Region::MEA, Region::AS, Region::AU];
        assert forall|x: Region| r@[x.spec_index()] == x by {
        }
        r
    }
}

} // verus!
