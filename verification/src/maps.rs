//! All the maps of a world, each under its location.

use vstd::prelude::*;
use crate::map::WorldMap;
use crate::positions::Location;

verus! {

/// The maps of a world, keyed by location, in a hash map of hashbrown.
#[verifier::external_body]
pub struct Maps {
    inner: hashbrown::HashMap<Location, WorldMap>,
}

/// The maps that the collection holds, each under its key.
pub uninterp spec fn maps_contents(maps: Maps) -> Map<Location, WorldMap>;

/// `HashMap::new` of hashbrown: a map without entries.
#[verifier::external_body]
fn maps_new() -> (r: Maps)
    ensures
        maps_contents(r).dom() == Set::<Location>::empty(),
{
    Maps { inner: hashbrown::HashMap::new() }
}

/// `HashMap::insert` of hashbrown: the value stands under the key
/// afterwards, and what stood there before is returned.
#[verifier::external_body]
fn maps_insert(maps: &mut Maps, key: Location, value: WorldMap) -> (r: Option<WorldMap>)
    ensures
        maps_contents(*final(maps)) == maps_contents(*old(maps)).insert(key, value),
        match r {
            Some(before) => maps_contents(*old(maps)).contains_key(key) && maps_contents(
                *old(maps),
            )[key] == before,
            None => !maps_contents(*old(maps)).contains_key(key),
        },
{
    maps.inner.insert(key, value)
}

/// `HashMap::contains_key` of hashbrown.
#[verifier::external_body]
fn maps_contains_key(maps: &Maps, key: &Location) -> (r: bool)
    ensures
        r == maps_contents(*maps).contains_key(*key),
{
    maps.inner.contains_key(key)
}

/// `HashMap::get` of hashbrown: the value under the key, if there is one.
#[verifier::external_body]
fn maps_get<'a>(maps: &'a Maps, key: &Location) -> (r: Option<&'a WorldMap>)
    ensures
        match r {
            Some(map) => maps_contents(*maps).contains_key(*key) && maps_contents(*maps)[*key]
                == *map,
            None => !maps_contents(*maps).contains_key(*key),
        },
{
    maps.inner.get(key)
}

/// `HashMap::get_mut` of hashbrown: the value under the key, to be changed
/// in place; nothing else in the map changes.
#[verifier::external_body]
fn maps_get_mut<'a>(maps: &'a mut Maps, key: &Location) -> (r: Option<&'a mut WorldMap>)
    ensures
        match r {
            Some(map) => maps_contents(*old(maps)).contains_key(*key) && maps_contents(
                *old(maps),
            )[*key] == *map && maps_contents(*final(maps)) == maps_contents(*old(maps)).insert(
                *key,
                *final(map),
            ),
            None => !maps_contents(*old(maps)).contains_key(*key) && maps_contents(*final(maps))
                == maps_contents(*old(maps)),
        },
{
    maps.inner.get_mut(key)
}

impl Maps {
    pub closed spec fn view(&self) -> Map<Location, WorldMap> {
        maps_contents(*self)
    }

    pub fn new() -> (r: Maps)
        ensures
            r@ == Map::<Location, WorldMap>::empty(),
    {
        let r = maps_new();
        assert(r@ =~= Map::<Location, WorldMap>::empty());
        r
    }

    pub fn insert(&mut self, key: Location, value: WorldMap) -> (r: Option<WorldMap>)
        ensures
            final(self)@ == old(self)@.insert(key, value),
            match r {
                Some(before) => old(self)@.contains_key(key) && old(self)@[key] == before,
                None => !old(self)@.contains_key(key),
            },
    {
        maps_insert(self, key, value)
    }

    pub fn contains_key(&self, key: &Location) -> (r: bool)
        ensures
            r == self@.contains_key(*key),
    {
        maps_contains_key(self, key)
    }

    pub fn get(&self, key: &Location) -> (r: Option<&WorldMap>)
        ensures
            match r {
                Some(map) => self@.contains_key(*key) && self@[*key] == *map,
                None => !self@.contains_key(*key),
            },
    {
        maps_get(self, key)
    }

    pub fn get_mut(&mut self, key: &Location) -> (r: Option<&mut WorldMap>)
        ensures
            match r {
                Some(map) => old(self)@.contains_key(*key) && old(self)@[*key] == *map
                    && final(self)@ == old(self)@.insert(*key, *final(map)),
                None => !old(self)@.contains_key(*key) && final(self)@ == old(self)@,
            },
    {
        maps_get_mut(self, key)
    }
}

} // verus!
