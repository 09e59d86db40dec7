//! Game days.

use vstd::prelude::*;

verus! {

/// One elapsed game day.
#[derive(Debug, Clone, Copy, PartialEq, Eq, Structural)]
pub struct TickEvent {
    pub tick: u64,
}

} // verus!
