//! A hash map keyed by [`Address`], with constant-time lookup and update.

use crate::address::Address;
use std::collections::HashMap;
use vstd::prelude::*;

verus! {

/// A map from addresses to values. Each address family has a hash table of
/// its own, keyed by the address's number.
pub struct AddressMap<T> {
    v4: HashMap<u32, T>,
    v6: HashMap<u128, T>,
}

impl<T> AddressMap<T> {
    /// What the map holds.
    pub closed spec fn view(&self) -> Map<Address, T> {
        Map::new(
            |a: Address|
                match a {
                    Address::V4(k) => self.v4@.contains_key(k),
                    Address::V6(k) => self.v6@.contains_key(k),
                },
            |a: Address|
                match a {
                    Address::V4(k) => self.v4@[k],
                    Address::V6(k) => self.v6@[k],
                },
        )
    }

    /// The empty map.
    pub fn new() -> (map: Self)
        ensures
            map@ == Map::<Address, T>::empty(),
    {
        let map = AddressMap { v4: HashMap::new(), v6: HashMap::new() };
        map
    }

    /// The value stored under `address`, if there is one.
    pub fn get(&self, address: &Address) -> (found: Option<&T>)
        ensures
            match found {
                Some(value) => self@.contains_key(*address) && *value == self@[*address],
                None => !self@.contains_key(*address),
            },
    {
        match address {
            Address::V4(k) => self.v4.get(k),
            Address::V6(k) => self.v6.get(k),
        }
    }

    /// Whether a value is stored under `address`.
    pub fn contains_key(&self, address: &Address) -> (found: bool)
        ensures
            found == self@.contains_key(*address),
    {
        match address {
            Address::V4(k) => self.v4.contains_key(k),
            Address::V6(k) => self.v6.contains_key(k),
        }
    }

    /// Stores `value` under `address` and hands back what was there before.
    pub fn insert(&mut self, address: Address, value: T) -> (before: Option<T>)
        ensures
            final(self)@ == old(self)@.insert(address, value),
            before == (if old(self)@.contains_key(address) {
                Some(old(self)@[address])
            } else {
                None
            }),
    {
        let before = match address {
            Address::V4(k) => self.v4.insert(k, value),
            Address::V6(k) => self.v6.insert(k, value),
        };
        before
    }

    /// The slot under `address`, first filled with `default` if it was empty.
    /// Whatever the caller leaves in the slot is what the map then holds.
    pub fn or_insert(&mut self, address: Address, default: T) -> (slot: &mut T)
        ensures
            *slot == (if old(self)@.contains_key(address) {
                old(self)@[address]
            } else {
                default
            }),
            final(self)@ =~= old(self)@.insert(address, *final(slot)),
    {
        match address {
            Address::V4(k) => self.v4.entry(k).or_insert(default),
            Address::V6(k) => self.v6.entry(k).or_insert(default),
        }
    }
}

} // verus!
