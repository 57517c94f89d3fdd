//! Conditions under which the library refuses to go on.
use vstd::prelude::*;

verus! {

/// Why an operation was refused.
#[derive(Debug, Clone, Copy, PartialEq, Eq, Structural)]
pub enum HanoiError {
    /// A disc was asked for with a size above the largest size of its game.
    InvalidDisc,
    /// A disc was taken from a peg that holds none.
    EmptyPegUnderflow,
    /// A game was asked for with a number of discs outside the accepted range.
    InvalidGameSize,
}

} // verus!
