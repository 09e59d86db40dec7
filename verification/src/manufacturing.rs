//! Production queues.

use crate::ids::{
    CapitalShipKey, DefenseFacilityKey, FighterKey, ManufacturingFacilityKey, SystemKey, TroopKey,
};
use crate::select::{collect, tally};
use vstd::prelude::*;

verus! {

/// What a yard can build. Troops and facilities name an existing unit as the
/// pattern to copy.
#[derive(Debug, Clone, Copy, PartialEq, Eq, Structural)]
pub enum BuildableKind {
    CapitalShip(CapitalShipKey),
    Fighter(FighterKey),
    Troop(TroopKey),
    DefenseFacility(DefenseFacilityKey),
    ManufacturingFacility(ManufacturingFacilityKey),
}

/// One order of one system's queue.
#[derive(Debug, Clone, Copy, PartialEq, Eq, Structural)]
pub struct QueueItem {
    pub system: SystemKey,
    pub kind: BuildableKind,
    pub ticks_remaining: u32,
    pub total_ticks: u32,
}

/// All queued orders, oldest first.
#[derive(Debug, Clone)]
pub struct ManufacturingState {
    pub items: Vec<QueueItem>,
}

impl ManufacturingState {
    /// No orders.
    pub fn new() -> (state: Self)
        ensures
            state.items@ == Seq::<QueueItem>::empty(),
    {
        ManufacturingState { items: Vec::new() }
    }

    /// How many orders wait at a system.
    pub open spec fn queue_len_spec(&self, system: SystemKey) -> nat {
        let items = self.items@;
        tally(items.len(), |i: int| items[i].system == system)
    }

    /// How many orders wait at a system.
    pub fn queue_len(&self, system: SystemKey) -> (len: usize)
        ensures
            len == self.queue_len_spec(system),
    {
        let mut len: usize = 0;
        let ghost items = self.items@;
        let ghost at_system = |i: int| items[i].system == system;
        for i in 0..self.items.len()
            invariant
                items == self.items@,
                at_system == (|i: int| items[i].system == system),
                len <= i,
                len == tally(i as nat, at_system),
        {
            if self.items[i].system == system {
                len = len + 1;
            }
        }
        len
    }

    /// Adds an order behind the others.
    pub fn enqueue(&mut self, system: SystemKey, kind: BuildableKind, ticks: u32)
        ensures
            final(self).items@ == old(self).items@.push(
                QueueItem { system, kind, ticks_remaining: ticks, total_ticks: ticks },
            ),
    {
        self.items.push(QueueItem { system, kind, ticks_remaining: ticks, total_ticks: ticks });
    }

    /// The orders that do not wait at `system`.
    pub open spec fn elsewhere(items: Seq<QueueItem>, system: SystemKey) -> Seq<QueueItem> {
        collect(
            items.len(),
            |i: int|
                if items[i].system != system {
                    Some(items[i])
                } else {
                    None
                },
        )
    }

    /// Drops every order of a system.
    pub fn clear_queue(&mut self, system: SystemKey)
        ensures
            final(self).items@ == Self::elsewhere(old(self).items@, system),
    {
        let ghost items = self.items@;
        let ghost keep = |i: int|
            if items[i].system != system {
                Some(items[i])
            } else {
                None
            };
        let mut kept: Vec<QueueItem> = Vec::new();
        for i in 0..self.items.len()
            invariant
                items == self.items@,
                keep == (|i: int|
                    if items[i].system != system {
                        Some(items[i])
                    } else {
                        None
                    }),
                kept@ == collect(i as nat, keep),
        {
            if self.items[i].system != system {
                kept.push(self.items[i]);
            }
        }
        self.items = kept;
    }
}

} // verus!
