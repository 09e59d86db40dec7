//! Things that happened and that other systems want to hear about.

use crate::ids::CharacterKey;
use vstd::prelude::*;

verus! {

/// A noteworthy change of the world.
#[derive(Debug, Clone, Copy, PartialEq, Eq, Structural)]
pub enum GameEffect {
    CharacterKilled { character: CharacterKey },
}

} // verus!
