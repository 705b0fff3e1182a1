use std::collections::HashMap;
use vstd::prelude::*;

verus! {

/// A two-way table between message kind identities (left) and wire
/// discriminants (right). Each direction is a hash map of its own, so that
/// both lookups cost the same.
pub struct Mapping {
    lr: HashMap<u64, usize>,
    rl: HashMap<usize, u64>,
}

impl Mapping {
    /// The left-to-right direction as a mathematical map.
    pub closed spec fn left(&self) -> Map<u64, usize> {
        self.lr@
    }

    /// The right-to-left direction as a mathematical map.
    pub closed spec fn right(&self) -> Map<usize, u64> {
        self.rl@
    }

    pub fn new() -> (m: Self)
        ensures
            m.left() == Map::<u64, usize>::empty(),
            m.right() == Map::<usize, u64>::empty(),
    {
        Self { lr: HashMap::new(), rl: HashMap::new() }
    }

    /// Looks up the right side paired with `k`.
    pub fn by_left(&self, k: &u64) -> (r: Option<&usize>)
        ensures
            match r {
                Some(v) => self.left().contains_key(*k) && self.left()[*k] == *v,
                None => !self.left().contains_key(*k),
            },
    {
        self.lr.get(k)
    }

    /// Looks up the left side paired with `k`.
    pub fn by_right(&self, k: &usize) -> (r: Option<&u64>)
        ensures
            match r {
                Some(v) => self.right().contains_key(*k) && self.right()[*k] == *v,
                None => !self.right().contains_key(*k),
            },
    {
        self.rl.get(k)
    }

    /// Pairs `left` with `right` in both directions, replacing what either
    /// side was paired with before.
    pub fn insert(&mut self, left: u64, right: usize)
        ensures
            final(self).left() == old(self).left().insert(left, right),
            final(self).right() == old(self).right().insert(right, left),
    {
        self.lr.insert(left, right);
        self.rl.insert(right, left);
    }
}

} // verus!
