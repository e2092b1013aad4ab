//! Names of the media resources that definitions refer to.

use vstd::prelude::*;

verus! {

#[derive(Clone, Copy, Hash, PartialEq, Eq, Debug, Structural)]
pub enum ResourceId {
    StoneFloor,
    Grass1,
    Dirt1,
    AcidAnimation,
}

} // verus!
