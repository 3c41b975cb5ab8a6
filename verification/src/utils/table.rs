//! A table keyed by address, over the hash maps of the standard library.

use crate::utils::address::IpAddress;
use std::collections::HashMap;
use vstd::prelude::*;
use vstd::std_specs::hash::group_hash_axioms;

verus! {

/// A table keyed by address.
#[derive(Debug)]
pub struct AddressMap<W> {
    v4: HashMap<u32, W>,
    v6: HashMap<u128, W>,
}

impl<W> View for AddressMap<W> {
    type V = Map<IpAddress, W>;

    closed spec fn view(&self) -> Map<IpAddress, W> {
        Map::new(
            |ip: IpAddress|
                match ip {
                    IpAddress::V4(bits) => self.v4@.contains_key(bits),
                    IpAddress::V6(bits) => self.v6@.contains_key(bits),
                },
            |ip: IpAddress|
                match ip {
                    IpAddress::V4(bits) => self.v4@[bits],
                    IpAddress::V6(bits) => self.v6@[bits],
                },
        )
    }
}

impl<W> AddressMap<W> {
    /// A table with no entries.
    pub fn new() -> (table: Self)
        ensures
            table@ == Map::<IpAddress, W>::empty(),
    {
        let table = AddressMap { v4: HashMap::new(), v6: HashMap::new() };
        assert(table@ =~= Map::<IpAddress, W>::empty());
        table
    }

    /// Whether `ip` has an entry.
    pub fn contains_key(&self, ip: IpAddress) -> (present: bool)
        ensures
            present == self@.contains_key(ip),
    {
        broadcast use group_hash_axioms;

        match ip {
            IpAddress::V4(bits) => self.v4.contains_key(&bits),
            IpAddress::V6(bits) => self.v6.contains_key(&bits),
        }
    }

    /// Sets the entry of `ip` to `value` and returns the entry that it had
    /// before, if it had one.
    pub fn insert(&mut self, ip: IpAddress, value: W) -> (before: Option<W>)
        ensures
            final(self)@ == old(self)@.insert(ip, value),
            match before {
                Some(held) => old(self)@.contains_key(ip) && held == old(self)@[ip],
                None => !old(self)@.contains_key(ip),
            },
    {
        broadcast use group_hash_axioms;

        let before = match ip {
            IpAddress::V4(bits) => self.v4.insert(bits, value),
            IpAddress::V6(bits) => self.v6.insert(bits, value),
        };
        assert(self@ =~= old(self)@.insert(ip, value));
        before
    }

    /// Takes the entry of `ip` out of the table, if it has one.
    pub fn remove(&mut self, ip: IpAddress) -> (held: Option<W>)
        ensures
            final(self)@ == old(self)@.remove(ip),
            match held {
                Some(value) => old(self)@.contains_key(ip) && value == old(self)@[ip],
                None => !old(self)@.contains_key(ip),
            },
    {
        broadcast use group_hash_axioms;

        let held = match ip {
            IpAddress::V4(bits) => self.v4.remove(&bits),
            IpAddress::V6(bits) => self.v6.remove(&bits),
        };
        assert(self@ =~= old(self)@.remove(ip));
        held
    }
}

} // verus!
