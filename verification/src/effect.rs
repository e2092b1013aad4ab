//! Effects that a block can put on what stands on it.

use vstd::prelude::*;

verus! {

#[derive(Clone, Copy, Debug, PartialEq, Eq, Structural)]
pub enum Effect {
    Poison,
    Fire,
    Haste,
    Stink,
    Strength,
}

} // verus!
