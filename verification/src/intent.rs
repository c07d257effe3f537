use vstd::prelude::*;

verus! {

/// One abstract navigation signal, decoupled from the device that produced
/// it. Produced by the input normalizer, consumed by the menu stack.
#[derive(Clone, Copy, Debug, PartialEq, Eq, Structural)]
pub enum Intent {
    Up,
    Down,
    Select,
    Back,
}

} // verus!
