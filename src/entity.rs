use vstd::prelude::*;

verus! {

/// A handle naming one simulated object; it carries no data of its own.
#[derive(Clone, Copy, Debug, PartialEq, Eq, Structural)]
pub struct Entity {
    pub id: u32,
}

} // verus!
