//! The slot of a party in which a monster may stand.

use vstd::prelude::*;
use crate::battle::pokemon::PokemonInstance;

verus! {

/// A slot: a monster with its place in the party, nothing, or the place of
/// the monster that is to come in.
#[derive(Clone, Debug)]
pub enum PokemonOption {
    Active(usize, PokemonInstance),
    Empty,
    ToReplace(usize),
}

impl Default for PokemonOption {
    fn default() -> (r: PokemonOption)
        ensures
            r is Empty,
    {
        PokemonOption::Empty
    }
}

impl PokemonOption {
    pub fn as_ref(&self) -> (r: Option<&PokemonInstance>)
        ensures
            match *self {
                PokemonOption::Active(_, instance) => r == Some(&instance),
                _ => r.is_none(),
            },
    {
        match self {
            PokemonOption::Active(_, instance) => Some(instance),
            _ => None,
        }
    }

    pub fn as_mut(&mut self) -> (r: Option<&mut PokemonInstance>)
        ensures
            match *old(self) {
                PokemonOption::Active(index, instance) => r.is_some() && *r.unwrap() == instance
                    && *final(self) == PokemonOption::Active(index, *final(r.unwrap())),
                _ => r.is_none() && *final(self) == *old(self),
            },
    {
        match self {
            PokemonOption::Active(_, instance) => Some(instance),
            _ => None,
        }
    }

    /// Empties the slot and returns what it held.
    pub fn take(&mut self) -> (r: PokemonOption)
        ensures
            r == *old(self),
            *final(self) is Empty,
    {
        let mut r = PokemonOption::Empty;
        core::mem::swap(self, &mut r);
        r
    }

    /// Marks the slot as waiting for the monster at `new`, unless it waits
    /// for one already, and returns the monster that stood in it with its
    /// place.
    pub fn replace(&mut self, new: usize) -> (r: Option<(usize, PokemonInstance)>)
        ensures
            match *old(self) {
                PokemonOption::Active(index, instance) => r == Some((index, instance)) && *final(self)
                    == PokemonOption::ToReplace(new),
                PokemonOption::Empty => r.is_none() && *final(self) == PokemonOption::ToReplace(new),
                PokemonOption::ToReplace(_) => r.is_none() && *final(self) == *old(self),
            },
    {
        let free: bool = match self {
            PokemonOption::ToReplace(..) => false,
            _ => true,
        };
        if free {
            if let PokemonOption::Active(index, instance) = self.take() {
                *self = PokemonOption::ToReplace(new);
                return Some((index, instance));
            } else {
                *self = PokemonOption::ToReplace(new);
            }
        }
        None
    }

    pub fn is_active(&self) -> (r: bool)
        ensures
            r == (*self is Active),
    {
        match self {
            PokemonOption::Active(..) => true,
            PokemonOption::Empty | PokemonOption::ToReplace(..) => false,
        }
    }

    pub fn index(&self) -> (r: Option<usize>)
        ensures
            r == match *self {
                PokemonOption::Active(index, _) => Some(index),
                _ => None,
            },
    {
        match self {
            PokemonOption::Active(index, ..) => Some(*index),
            PokemonOption::Empty | PokemonOption::ToReplace(..) => None,
        }
    }
}

} // verus!
