//! The groups of characters of a world, each under its id.

use vstd::prelude::*;
use crate::character::NpcGroupId;
use crate::manager::NpcGroup;

verus! {

/// The groups of a world, keyed by their ids, in a hash map of hashbrown.
#[verifier::external_body]
pub struct Groups {
    inner: hashbrown::HashMap<NpcGroupId, NpcGroup>,
}

/// The groups that the collection holds, each under its key.
pub uninterp spec fn groups_contents(groups: Groups) -> Map<NpcGroupId, NpcGroup>;

/// `HashMap::new` of hashbrown: a map without entries.
#[verifier::external_body]
fn groups_new() -> (r: Groups)
    ensures
        groups_contents(r).dom() == Set::<NpcGroupId>::empty(),
{
    Groups { inner: hashbrown::HashMap::new() }
}

/// `HashMap::insert` of hashbrown: the value stands under the key
/// afterwards, and what stood there before is returned.
#[verifier::external_body]
fn groups_insert(groups: &mut Groups, key: NpcGroupId, value: NpcGroup) -> (r: Option<NpcGroup>)
    ensures
        groups_contents(*final(groups)) == groups_contents(*old(groups)).insert(key, value),
        match r {
            Some(before) => groups_contents(*old(groups)).contains_key(key) && groups_contents(
                *old(groups),
            )[key] == before,
            None => !groups_contents(*old(groups)).contains_key(key),
        },
{
    groups.inner.insert(key, value)
}

/// `HashMap::get` of hashbrown: the value under the key, if there is one.
#[verifier::external_body]
fn groups_get(groups: &Groups, key: &NpcGroupId) -> (r: Option<NpcGroup>)
    ensures
        match r {
            Some(group) => groups_contents(*groups).contains_key(*key) && groups_contents(
                *groups,
            )[*key] == group,
            None => !groups_contents(*groups).contains_key(*key),
        },
{
    match groups.inner.get(key) {
        Some(group) => Some(*group),
        None => None,
    }
}

impl Groups {
    pub closed spec fn view(&self) -> Map<NpcGroupId, NpcGroup> {
        groups_contents(*self)
    }

    pub fn new() -> (r: Groups)
        ensures
            r@ == Map::<NpcGroupId, NpcGroup>::empty(),
    {
        let r = groups_new();
        assert(r@ =~= Map::<NpcGroupId, NpcGroup>::empty());
        r
    }

    pub fn insert(&mut self, key: NpcGroupId, value: NpcGroup) -> (r: Option<NpcGroup>)
        ensures
            final(self)@ == old(self)@.insert(key, value),
            match r {
                Some(before) => old(self)@.contains_key(key) && old(self)@[key] == before,
                None => !old(self)@.contains_key(key),
            },
    {
        groups_insert(self, key, value)
    }

    pub fn get(&self, key: &NpcGroupId) -> (r: Option<NpcGroup>)
        ensures
            r == group_of(self@, *key),
    {
        groups_get(self, key)
    }
}

/// The group with the id, if there is one.
pub open spec fn group_of(groups: Map<NpcGroupId, NpcGroup>, id: NpcGroupId) -> Option<NpcGroup> {
    if groups.contains_key(id) {
        Some(groups[id])
    } else {
        None
    }
}

} // verus!
