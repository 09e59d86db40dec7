//! Blockaded systems.

use crate::ids::SystemKey;
use crate::select::collect;
use vstd::prelude::*;

verus! {

/// The systems under blockade.
#[derive(Debug)]
pub struct BlockadeState {
    pub systems: Vec<SystemKey>,
}

/// The listed systems other than `system`.
pub open spec fn other_systems(list: Seq<SystemKey>, system: SystemKey) -> Seq<SystemKey> {
    collect(list.len(), kept_system(list, system))
}

/// The `i`th system, if it is another one.
pub open spec fn kept_system(list: Seq<SystemKey>, system: SystemKey) -> spec_fn(int) -> Option<
    SystemKey,
> {
    |i: int|
        if list[i] != system {
            Some(list[i])
        } else {
            None
        }
}

impl BlockadeState {
    /// No blockade anywhere.
    pub fn new() -> (state: Self)
        ensures
            state.systems@ == Seq::<SystemKey>::empty(),
    {
        BlockadeState { systems: Vec::new() }
    }

    /// Lifts the blockade of a system.
    pub fn clear_blockade(&mut self, system: SystemKey)
        ensures
            final(self).systems@ == other_systems(old(self).systems@, system),
    {
        let ghost list = self.systems@;
        let ghost f = kept_system(list, system);
        let mut kept: Vec<SystemKey> = Vec::new();
        for i in 0..self.systems.len()
            invariant
                list == self.systems@,
                f == kept_system(list, system),
                kept@ == collect(i as nat, f),
        {
            if self.systems[i] != system {
                kept.push(self.systems[i]);
            }
        }
        self.systems = kept;
    }
}

} // verus!
