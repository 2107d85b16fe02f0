//! The currency collaborator, modelled as explicit per-account balances:
//! a free part that `transfer_balance` moves and a reserved part that
//! `reserve` locks when an asset is created.
//!
//! Mutations are infallible but carry preconditions; `can_reserve` and
//! `can_transfer` are the matching checks, so a caller can finish all
//! validation before it moves any currency.

use std::collections::HashMap;
use vstd::prelude::*;

use crate::types::{AccountId, Balance};

verus! {

broadcast use vstd::std_specs::hash::group_hash_axioms;

/// The two balance parts of one account.
#[derive(Clone, Copy, PartialEq, Eq, Structural, Debug)]
pub struct BalanceEntry {
    pub free: Balance,
    pub reserved: Balance,
}

/// Per-account balances; an account never seen holds nothing.
pub struct Bank {
    accounts: HashMap<AccountId, BalanceEntry>,
}

impl Bank {
    /// The freely transferable balance of an account.
    pub closed spec fn free_of(&self, a: AccountId) -> Balance {
        if self.accounts@.contains_key(a) {
            self.accounts@[a].free
        } else {
            0
        }
    }

    /// The reserved (locked) balance of an account.
    pub closed spec fn reserved_of(&self, a: AccountId) -> Balance {
        if self.accounts@.contains_key(a) {
            self.accounts@[a].reserved
        } else {
            0
        }
    }

    /// A bank with every balance zero.
    pub fn new() -> (s: Bank)
        ensures
            forall|a: AccountId| s.free_of(a) == 0 && s.reserved_of(a) == 0,
    {
        Bank { accounts: HashMap::new() }
    }

    /// Reads an account's entry, whether or not it was ever touched.
    fn entry_of(&self, a: AccountId) -> (e: BalanceEntry)
        ensures
            e.free == self.free_of(a),
            e.reserved == self.reserved_of(a),
    {
        match self.accounts.get(&a) {
            Some(e) => *e,
            None => BalanceEntry { free: 0, reserved: 0 },
        }
    }

    /// Writes an account's entry.
    fn put_entry(&mut self, a: AccountId, e: BalanceEntry)
        ensures
            final(self).free_of(a) == e.free,
            final(self).reserved_of(a) == e.reserved,
            forall|b: AccountId| b != a ==> final(self).free_of(b) == old(self).free_of(b)
                && final(self).reserved_of(b) == old(self).reserved_of(b),
    {
        self.accounts.insert(a, e);
    }

    /// The freely transferable balance of an account.
    pub fn free_balance(&self, a: AccountId) -> (r: Balance)
        ensures
            r == self.free_of(a),
    {
        self.entry_of(a).free
    }

    /// The reserved balance of an account.
    pub fn reserved_balance(&self, a: AccountId) -> (r: Balance)
        ensures
            r == self.reserved_of(a),
    {
        self.entry_of(a).reserved
    }

    /// Grants an account new free balance (genesis endowment).
    pub fn endow(&mut self, a: AccountId, amount: Balance)
        requires
            old(self).free_of(a) + amount <= Balance::MAX,
        ensures
            final(self).free_of(a) == old(self).free_of(a) + amount,
            final(self).reserved_of(a) == old(self).reserved_of(a),
            forall|b: AccountId| b != a ==> final(self).free_of(b) == old(self).free_of(b)
                && final(self).reserved_of(b) == old(self).reserved_of(b),
    {
        let e = self.entry_of(a);
        self.put_entry(a, BalanceEntry { free: e.free + amount, reserved: e.reserved });
    }

    /// Whether `amount` can be moved from an account's free part to its
    /// reserved part.
    pub fn can_reserve(&self, a: AccountId, amount: Balance) -> (r: bool)
        ensures
            r == (self.free_of(a) >= amount && self.reserved_of(a) + amount <= Balance::MAX),
    {
        let e = self.entry_of(a);
        e.free >= amount && e.reserved <= Balance::MAX - amount
    }

    /// Moves `amount` from an account's free part to its reserved part.
    pub fn reserve(&mut self, a: AccountId, amount: Balance)
        requires
            old(self).free_of(a) >= amount,
            old(self).reserved_of(a) + amount <= Balance::MAX,
        ensures
            final(self).free_of(a) == old(self).free_of(a) - amount,
            final(self).reserved_of(a) == old(self).reserved_of(a) + amount,
            forall|b: AccountId| b != a ==> final(self).free_of(b) == old(self).free_of(b)
                && final(self).reserved_of(b) == old(self).reserved_of(b),
    {
        let e = self.entry_of(a);
        self.put_entry(a, BalanceEntry { free: e.free - amount, reserved: e.reserved + amount });
    }

    /// Releases up to `amount` from an account's reserved part back to its
    /// free part; no more than is actually reserved is released.
    pub fn unreserve(&mut self, a: AccountId, amount: Balance)
        requires
            old(self).free_of(a) + old(self).reserved_of(a) <= Balance::MAX,
        ensures
            final(self).reserved_of(a) == if amount <= old(self).reserved_of(a) {
                (old(self).reserved_of(a) - amount) as Balance
            } else {
                0
            },
            final(self).free_of(a) == old(self).free_of(a) + (old(self).reserved_of(a)
                - final(self).reserved_of(a)),
            forall|b: AccountId| b != a ==> final(self).free_of(b) == old(self).free_of(b)
                && final(self).reserved_of(b) == old(self).reserved_of(b),
    {
        let e = self.entry_of(a);
        let moved = if amount <= e.reserved {
            amount
        } else {
            e.reserved
        };
        self.put_entry(a, BalanceEntry { free: e.free + moved, reserved: e.reserved - moved });
    }

    /// Whether `amount` of free balance can move between the two accounts.
    pub fn can_transfer(&self, from: AccountId, to: AccountId, amount: Balance) -> (r: bool)
        ensures
            r == (self.free_of(from) >= amount && (from == to || self.free_of(to) + amount
                <= Balance::MAX)),
    {
        let enough = self.free_balance(from) >= amount;
        if from == to {
            enough
        } else {
            enough && self.free_balance(to) <= Balance::MAX - amount
        }
    }

    /// Moves `amount` of free balance from one account to another.
    pub fn transfer_balance(&mut self, from: AccountId, to: AccountId, amount: Balance)
        requires
            old(self).free_of(from) >= amount,
            from != to ==> old(self).free_of(to) + amount <= Balance::MAX,
        ensures
            from != to ==> final(self).free_of(from) == old(self).free_of(from) - amount
                && final(self).free_of(to) == old(self).free_of(to) + amount,
            from == to ==> final(self).free_of(from) == old(self).free_of(from),
            final(self).reserved_of(from) == old(self).reserved_of(from),
            final(self).reserved_of(to) == old(self).reserved_of(to),
            forall|b: AccountId| b != from && b != to ==> final(self).free_of(b) == old(
                self,
            ).free_of(b) && final(self).reserved_of(b) == old(self).reserved_of(b),
    {
        if from != to {
            let src = self.entry_of(from);
            self.put_entry(from, BalanceEntry { free: src.free - amount, reserved: src.reserved });
            let dst = self.entry_of(to);
            self.put_entry(to, BalanceEntry { free: dst.free + amount, reserved: dst.reserved });
        }
    }
}

} // verus!
