//! The directory enumerations that the system has under way, by the identifier it gave them.

use crate::projfs::enumeration::{EnumerationInstance, EnumerationView};
use dashmap::DashMap;
use vstd::prelude::*;

verus! {

/// A concurrent map, opaque to proofs.
#[verifier::external_type_specification]
#[verifier::external_body]
#[verifier::reject_recursive_types(K)]
#[verifier::reject_recursive_types(V)]
#[verifier::reject_recursive_types(S)]
pub struct ExDashMap<K, V, S>(DashMap<K, V, S>);

/// The enumerations that a map holds, by identifier.
pub uninterp spec fn held(map: DashMap<u128, EnumerationInstance>) -> Map<u128, EnumerationView>;

/// No enumeration.
pub open spec fn none_held() -> Map<u128, EnumerationView> {
    Map::empty()
}

/// An empty map, by `DashMap::new`.
#[verifier::external_body]
fn new_map() -> (r: DashMap<u128, EnumerationInstance>)
    ensures
        held(r) == none_held(),
{
    DashMap::new()
}

/// `DashMap::insert`: the map holds the value under the key from then on, in place of one that it
/// held there before.
#[verifier::external_body]
fn insert(map: &mut DashMap<u128, EnumerationInstance>, key: u128, value: EnumerationInstance)
    ensures
        held(*final(map)) == held(*old(map)).insert(key, value@),
{
    map.insert(key, value);
}

/// `DashMap::remove`: the map no longer holds anything under the key, and what it held there is
/// handed out.
#[verifier::external_body]
fn remove(map: &mut DashMap<u128, EnumerationInstance>, key: u128) -> (r: Option<
    EnumerationInstance,
>)
    ensures
        held(*final(map)) == held(*old(map)).remove(key),
        match r {
            Some(value) => held(*old(map)).contains_key(key) && value@ == held(*old(map))[key],
            None => !held(*old(map)).contains_key(key),
        },
{
    map.remove(&key).map(|entry| entry.1)
}

/// The enumerations under way.
pub struct EnumerationSessions {
    entry_map: DashMap<u128, EnumerationInstance>,
}

impl View for EnumerationSessions {
    type V = Map<u128, EnumerationView>;

    closed spec fn view(&self) -> Map<u128, EnumerationView> {
        held(self.entry_map)
    }
}

/// An enumeration that has just started: nothing captured, nothing listed.
pub open spec fn fresh_enumeration() -> EnumerationView {
    EnumerationView {
        search: Seq::empty(),
        search_wide: Seq::empty(),
        base_path: Seq::empty(),
        file: Seq::empty(),
        last_index: None,
        capture_search: true,
        done: false,
    }
}

impl EnumerationSessions {
    /// No enumeration is under way.
    pub fn new() -> (r: EnumerationSessions)
        ensures
            r@ == none_held(),
    {
        EnumerationSessions { entry_map: new_map() }
    }

    /// Start an enumeration. One under the same identifier is started over.
    pub fn start(&mut self, id: u128)
        ensures
            final(self)@ == old(self)@.insert(id, fresh_enumeration()),
    {
        let instance = EnumerationInstance::new();
        insert(&mut self.entry_map, id, instance);
    }

    /// End an enumeration, whether it was under way or not.
    pub fn end(&mut self, id: u128)
        ensures
            final(self)@ == old(self)@.remove(id),
    {
        remove(&mut self.entry_map, id);
    }

    /// Take an enumeration out to continue it. There is none under an unknown identifier.
    pub fn take(&mut self, id: u128) -> (r: Option<EnumerationInstance>)
        ensures
            final(self)@ == old(self)@.remove(id),
            match r {
                Some(instance) => old(self)@.contains_key(id) && instance@ == old(self)@[id],
                None => !old(self)@.contains_key(id),
            },
    {
        remove(&mut self.entry_map, id)
    }

    /// Put an enumeration back that was taken out.
    pub fn put_back(&mut self, id: u128, instance: EnumerationInstance)
        ensures
            final(self)@ == old(self)@.insert(id, instance@),
    {
        insert(&mut self.entry_map, id, instance);
    }
}

/// The identifier that a GUID spells, read as one little-endian number. The last eight bytes of
/// the GUID are given as a number of that kind.
pub open spec fn guid_number(data1: u32, data2: u16, data3: u16, data4: u64) -> int {
    data1 + data2 * 0x1_0000_0000 + data3 * 0x1_0000_0000_0000 + data4 * 0x1_0000_0000_0000_0000
}

/// The identifier that a GUID spells.
pub fn context_from_guid(data1: u32, data2: u16, data3: u16, data4: u64) -> (r: u128)
    ensures
        r == guid_number(data1, data2, data3, data4),
{
    data1 as u128 + data2 as u128 * 0x1_0000_0000 + data3 as u128 * 0x1_0000_0000_0000
        + data4 as u128 * 0x1_0000_0000_0000_0000
}

/// Different GUIDs spell different identifiers.
pub proof fn law_guids_are_distinguished(
    a1: u32,
    a2: u16,
    a3: u16,
    a4: u64,
    b1: u32,
    b2: u16,
    b3: u16,
    b4: u64,
)
    requires
        guid_number(a1, a2, a3, a4) == guid_number(b1, b2, b3, b4),
    ensures
        a1 == b1,
        a2 == b2,
        a3 == b3,
        a4 == b4,
{
}

/// A GUID spells the number whose little-endian bytes are those of its parts, one after the other.
pub proof fn law_guid_is_read_part_by_part(data1: u32, data2: u16, data3: u16, data4: u64)
    ensures
        guid_number(data1, data2, data3, data4) == data1 + 0x1_0000_0000 * (data2 + 0x1_0000 * (data3
            + 0x1_0000 * data4)),
{
}

/// An enumeration that has just started has nothing listed and captures the search of its first
/// callback.
pub proof fn law_started_enumeration_is_blank()
    ensures
        fresh_enumeration().capture_search,
        fresh_enumeration().file.len() == 0,
        fresh_enumeration().last_index is None,
        fresh_enumeration().search.len() == 0,
        !fresh_enumeration().done,
{
}

} // verus!
