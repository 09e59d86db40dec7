//! Fleets under way.

use crate::ids::{FleetKey, SystemKey};
use crate::select::collect;
use vstd::prelude::*;

verus! {

/// A fleet on its way to a system.
#[derive(Debug, Clone, Copy, PartialEq, Eq, Structural)]
pub struct MovementOrder {
    pub fleet: FleetKey,
    pub origin: SystemKey,
    pub destination: SystemKey,
    pub total_ticks: u32,
    pub elapsed_ticks: u32,
}

/// All fleets under way, at most one order for each.
#[derive(Debug, Clone)]
pub struct MovementState {
    pub orders: Vec<MovementOrder>,
}

/// Whether some order moves `fleet`.
pub open spec fn in_transit(orders: Seq<MovementOrder>, fleet: FleetKey) -> bool {
    exists|i: int| 0 <= i < orders.len() && (#[trigger] orders[i]).fleet == fleet
}

/// Whether no fleet has two orders.
pub open spec fn one_order_each(orders: Seq<MovementOrder>) -> bool {
    forall|i: int, j: int|
        0 <= i < j < orders.len() ==> (#[trigger] orders[i]).fleet != (#[trigger] orders[j]).fleet
}

/// The orders to other systems than `system`.
pub open spec fn orders_elsewhere(orders: Seq<MovementOrder>, system: SystemKey) -> Seq<
    MovementOrder,
> {
    collect(
        orders.len(),
        |i: int|
            if orders[i].destination != system {
                Some(orders[i])
            } else {
                None
            },
    )
}

/// The orders of other fleets than `fleet`.
pub open spec fn orders_of_others(orders: Seq<MovementOrder>, fleet: FleetKey) -> Seq<
    MovementOrder,
> {
    collect(
        orders.len(),
        |i: int|
            if orders[i].fleet != fleet {
                Some(orders[i])
            } else {
                None
            },
    )
}

impl MovementState {
    /// No fleet under way.
    pub fn new() -> (state: Self)
        ensures
            state.orders@ == Seq::<MovementOrder>::empty(),
    {
        MovementState { orders: Vec::new() }
    }

    /// The order that moves a fleet.
    pub fn get(&self, fleet: FleetKey) -> (order: Option<&MovementOrder>)
        ensures
            order is Some <==> in_transit(self.orders@, fleet),
            order matches Some(o) ==> o.fleet == fleet && self.orders@.contains(*o),
    {
        for i in 0..self.orders.len()
            invariant
                forall|j: int| 0 <= j < i ==> (#[trigger] self.orders@[j]).fleet != fleet,
        {
            if self.orders[i].fleet == fleet {
                assert(self.orders@[i as int].fleet == fleet);
                return Some(&self.orders[i]);
            }
        }
        None
    }

    /// Whether a fleet is under way.
    pub fn is_in_transit(&self, fleet: FleetKey) -> (moving: bool)
        ensures
            moving == in_transit(self.orders@, fleet),
    {
        self.get(fleet).is_some()
    }

    /// Sends a fleet off; a fleet already under way keeps its order.
    pub fn order(
        &mut self,
        fleet: FleetKey,
        origin: SystemKey,
        destination: SystemKey,
        ticks: u32,
    ) -> (accepted: bool)
        ensures
            accepted == !in_transit(old(self).orders@, fleet),
            final(self).orders@ == if accepted {
                old(self).orders@.push(
                    MovementOrder { fleet, origin, destination, total_ticks: ticks, elapsed_ticks: 0 },
                )
            } else {
                old(self).orders@
            },
            one_order_each(old(self).orders@) ==> one_order_each(final(self).orders@),
    {
        if self.is_in_transit(fleet) {
            return false;
        }
        self.orders.push(
            MovementOrder { fleet, origin, destination, total_ticks: ticks, elapsed_ticks: 0 },
        );
        true
    }

    /// Drops the order of a fleet.
    pub fn cancel(&mut self, fleet: FleetKey)
        ensures
            final(self).orders@ == orders_of_others(old(self).orders@, fleet),
    {
        let ghost orders = self.orders@;
        let ghost keep = |i: int|
            if orders[i].fleet != fleet {
                Some(orders[i])
            } else {
                None
            };
        let mut kept: Vec<MovementOrder> = Vec::new();
        for i in 0..self.orders.len()
            invariant
                orders == self.orders@,
                keep == (|i: int|
                    if orders[i].fleet != fleet {
                        Some(orders[i])
                    } else {
                        None
                    }),
                kept@ == collect(i as nat, keep),
        {
            if self.orders[i].fleet != fleet {
                kept.push(self.orders[i]);
            }
        }
        self.orders = kept;
    }

    /// Drops every order to a system.
    pub fn cancel_orders_to(&mut self, system: SystemKey)
        ensures
            final(self).orders@ == orders_elsewhere(old(self).orders@, system),
    {
        let ghost orders = self.orders@;
        let ghost keep = |i: int|
            if orders[i].destination != system {
                Some(orders[i])
            } else {
                None
            };
        let mut kept: Vec<MovementOrder> = Vec::new();
        for i in 0..self.orders.len()
            invariant
                orders == self.orders@,
                keep == (|i: int|
                    if orders[i].destination != system {
                        Some(orders[i])
                    } else {
                        None
                    }),
                kept@ == collect(i as nat, keep),
        {
            if self.orders[i].destination != system {
                kept.push(self.orders[i]);
            }
        }
        self.orders = kept;
    }
}

} // verus!
