//! The position component.

use vstd::prelude::*;
use crate::component::ComponentType;

verus! {

/// Where an entity stands.
#[derive(Clone, Copy, Debug, PartialEq, Eq, Structural)]
pub struct Position {
    pub x: i32,
    pub y: i32,
}

impl ComponentType for Position {
    open spec fn canonical_name() -> Seq<char> {
        "mmolib::position::Position"@
    }

    fn kind_name() -> (name: &'static str) {
        "mmolib::position::Position"
    }
}

} // verus!
