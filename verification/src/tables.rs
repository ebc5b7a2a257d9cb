//! The concurrent hash maps behind the registries, with the operations that
//! the registries use. Each map is described by the entries it holds.

use crate::lobby::{Lobby, LobbyID, LobbyView, Player, PlayerID, Region};
use dashmap::DashMap;
use vstd::prelude::*;

verus! {

/// `dashmap::DashMap`, of which nothing is seen but through the operations
/// below.
#[verifier::external_type_specification]
#[verifier::external_body]
#[verifier::reject_recursive_types(K)]
#[verifier::reject_recursive_types(V)]
#[verifier::reject_recursive_types(S)]
pub struct ExDashMap<K, V, S>(DashMap<K, V, S>);

/// A map from identifiers to identifiers: players to endpoints, or endpoints
/// to players.
pub type IdMap = DashMap<u128, u128>;

/// A map from lobbies to the region they were created in.
pub type RegionMap = DashMap<LobbyID, Region>;

/// A map from players to their profile and the lobby they are in.
pub type PlayerMap = DashMap<PlayerID, (Player, Option<LobbyID>)>;

/// A map from lobby identifiers to lobbies.
pub type LobbyMap = DashMap<LobbyID, Lobby>;

/// What an [`IdMap`] holds.
pub type IdEntries = Map<u128, u128>;

/// What a [`RegionMap`] holds.
pub type RegionEntries = Map<LobbyID, Region>;

/// What a [`PlayerMap`] holds.
pub type PlayerEntries = Map<PlayerID, (Player, Option<LobbyID>)>;

/// What a [`LobbyMap`] holds.
pub type LobbyEntries = Map<LobbyID, LobbyView>;

/// The entries of an identifier map.
pub uninterp spec fn id_entries(m: IdMap) -> IdEntries;

/// The entries of a region map.
pub uninterp spec fn region_entries(m: RegionMap) -> RegionEntries;

/// The entries of a player map.
pub uninterp spec fn player_entries(m: PlayerMap) -> PlayerEntries;

/// The entries of a lobby map, each lobby by its value.
pub uninterp spec fn lobby_entries(m: LobbyMap) -> LobbyEntries;

/// Whether `pairs` names every entry of `entries` once and nothing else.
pub open spec fn lists_ids(pairs: Seq<(u128, u128)>, entries: IdEntries) -> bool {
    &&& forall|i: int|
        0 <= i < pairs.len() ==> entries.contains_key(#[trigger] pairs[i].0) && entries[pairs[i].0]
            == pairs[i].1
    &&& forall|i: int, j: int|
        0 <= i < j < pairs.len() ==> (#[trigger] pairs[i]).0 != (#[trigger] pairs[j]).0
    &&& forall|k: u128| #[trigger]
        entries.contains_key(k) ==> exists|i: int| 0 <= i < pairs.len() && (#[trigger] pairs[i]).0 == k
}

/// Whether `pairs` names every entry of `entries` once and nothing else.
pub open spec fn lists_lobbies(pairs: Seq<(LobbyID, Lobby)>, entries: LobbyEntries) -> bool {
    &&& forall|i: int|
        0 <= i < pairs.len() ==> entries.contains_key(#[trigger] pairs[i].0) && entries[pairs[i].0]
            == pairs[i].1@
    &&& forall|i: int, j: int|
        0 <= i < j < pairs.len() ==> (#[trigger] pairs[i]).0 != (#[trigger] pairs[j]).0
    &&& forall|k: LobbyID| #[trigger]
        entries.contains_key(k) ==> exists|i: int| 0 <= i < pairs.len() && (#[trigger] pairs[i]).0 == k
}

/// `DashMap::new`: a map without entries.
#[verifier::external_body]
pub(crate) fn id_map_new() -> (m: IdMap)
    ensures
        id_entries(m) == IdEntries::empty(),
{
    DashMap::new()
}

/// `DashMap::insert`: binds `key` to `value`, in place of what it was bound to.
#[verifier::external_body]
pub(crate) fn id_map_insert(m: &mut IdMap, key: u128, value: u128)
    ensures
        id_entries(*final(m)) == id_entries(*old(m)).insert(key, value),
{
    m.insert(key, value);
}

/// `DashMap::get`: what `key` is bound to, if it is bound.
#[verifier::external_body]
pub(crate) fn id_map_get(m: &IdMap, key: u128) -> (r: Option<u128>)
    ensures
        r == (if id_entries(*m).contains_key(key) {
            Some(id_entries(*m)[key])
        } else {
            None
        }),
{
    m.get(&key).map(|e| *e.value())
}

/// `DashMap::remove`: unbinds `key` and returns what it was bound to.
#[verifier::external_body]
pub(crate) fn id_map_remove(m: &mut IdMap, key: u128) -> (r: Option<u128>)
    ensures
        id_entries(*final(m)) == id_entries(*old(m)).remove(key),
        r == (if id_entries(*old(m)).contains_key(key) {
            Some(id_entries(*old(m))[key])
        } else {
            None
        }),
{
    m.remove(&key).map(|e| e.1)
}

/// `DashMap::iter`: every entry once, in an order that is not fixed.
#[verifier::external_body]
pub(crate) fn id_map_list(m: &IdMap) -> (r: Vec<(u128, u128)>)
    ensures
        lists_ids(r@, id_entries(*m)),
{
    m.iter().map(|e| (*e.key(), *e.value())).collect()
}

/// `DashMap::new`: a map without entries.
#[verifier::external_body]
pub(crate) fn region_map_new() -> (m: RegionMap)
    ensures
        region_entries(m) == RegionEntries::empty(),
{
    DashMap::new()
}

/// `DashMap::insert`: binds `key` to `value`, in place of what it was bound to.
#[verifier::external_body]
pub(crate) fn region_map_insert(m: &mut RegionMap, key: LobbyID, value: Region)
    ensures
        region_entries(*final(m)) == region_entries(*old(m)).insert(key, value),
{
    m.insert(key, value);
}

/// `DashMap::get`: what `key` is bound to, if it is bound.
#[verifier::external_body]
pub(crate) fn region_map_get(m: &RegionMap, key: LobbyID) -> (r: Option<Region>)
    ensures
        r == (if region_entries(*m).contains_key(key) {
            Some(region_entries(*m)[key])
        } else {
            None
        }),
{
    m.get(&key).map(|e| *e.value())
}

/// `DashMap::remove`: unbinds `key` and returns what it was bound to.
#[verifier::external_body]
pub(crate) fn region_map_remove(m: &mut RegionMap, key: LobbyID) -> (r: Option<Region>)
    ensures
        region_entries(*final(m)) == region_entries(*old(m)).remove(key),
        r == (if region_entries(*old(m)).contains_key(key) {
            Some(region_entries(*old(m))[key])
        } else {
            None
        }),
{
    m.remove(&key).map(|e| e.1)
}

/// `DashMap::new`: a map without entries.
#[verifier::external_body]
pub(crate) fn player_map_new() -> (m: PlayerMap)
    ensures
        player_entries(m) == PlayerEntries::empty(),
{
    DashMap::new()
}

/// `DashMap::insert`: binds `key` to `value`, in place of what it was bound to.
#[verifier::external_body]
pub(crate) fn player_map_insert(m: &mut PlayerMap, key: PlayerID, value: (Player, Option<LobbyID>))
    ensures
        player_entries(*final(m)) == player_entries(*old(m)).insert(key, value),
{
    m.insert(key, value);
}

/// `DashMap::get`: what `key` is bound to, if it is bound.
#[verifier::external_body]
pub(crate) fn player_map_get(m: &PlayerMap, key: PlayerID) -> (r: Option<(Player, Option<LobbyID>)>)
    ensures
        r == (if player_entries(*m).contains_key(key) {
            Some(player_entries(*m)[key])
        } else {
            None
        }),
{
    m.get(&key).map(|e| *e.value())
}

/// `DashMap::remove`: unbinds `key` and returns what it was bound to.
#[verifier::external_body]
pub(crate) fn player_map_remove(m: &mut PlayerMap, key: PlayerID) -> (r: Option<(Player, Option<LobbyID>)>)
    ensures
        player_entries(*final(m)) == player_entries(*old(m)).remove(key),
        r == (if player_entries(*old(m)).contains_key(key) {
            Some(player_entries(*old(m))[key])
        } else {
            None
        }),
{
    m.remove(&key).map(|e| e.1)
}

/// `DashMap::new`: a map without entries.
#[verifier::external_body]
pub(crate) fn lobby_map_new() -> (m: LobbyMap)
    ensures
        lobby_entries(m) == LobbyEntries::empty(),
{
    DashMap::new()
}

/// `DashMap::insert`: binds `key` to `value`, in place of what it was bound to.
#[verifier::external_body]
pub(crate) fn lobby_map_insert(m: &mut LobbyMap, key: LobbyID, value: Lobby)
    ensures
        lobby_entries(*final(m)) == lobby_entries(*old(m)).insert(key, value@),
{
    m.insert(key, value);
}

/// `DashMap::get`: a copy of the lobby that `key` is bound to, if it is bound.
#[verifier::external_body]
pub(crate) fn lobby_map_get(m: &LobbyMap, key: LobbyID) -> (r: Option<Lobby>)
    ensures
        r is Some == lobby_entries(*m).contains_key(key),
        r is Some ==> r->Some_0@ == lobby_entries(*m)[key],
{
    m.get(&key).map(|e| e.value().clone())
}

/// `DashMap::remove`: unbinds `key` and returns the lobby it was bound to.
#[verifier::external_body]
pub(crate) fn lobby_map_remove(m: &mut LobbyMap, key: LobbyID) -> (r: Option<Lobby>)
    ensures
        lobby_entries(*final(m)) == lobby_entries(*old(m)).remove(key),
        r is Some == lobby_entries(*old(m)).contains_key(key),
        r is Some ==> r->Some_0@ == lobby_entries(*old(m))[key],
{
    m.remove(&key).map(|e| e.1)
}

/// `DashMap::iter`: every entry once, each lobby copied, in an order that is
/// not fixed.
#[verifier::external_body]
pub(crate) fn lobby_map_list(m: &LobbyMap) -> (r: Vec<(LobbyID, Lobby)>)
    ensures
        lists_lobbies(r@, lobby_entries(*m)),
{
    m.iter().map(|e| (*e.key(), e.value().clone())).collect()
}

} // verus!
