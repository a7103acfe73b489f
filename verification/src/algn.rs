use vstd::prelude::*;

verus! {

/// Text alignment within the frame.
#[derive(Clone, Copy, Debug, Default, PartialEq, Eq, Structural)]
pub enum Algn {
    /// Align left.
    #[default]
    Left,
    /// Align center.
    Centr,
    /// Align right.
    Right,
}

} // verus!
