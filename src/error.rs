use vstd::prelude::*;

verus! {

/// Failures of scoring and of card notation.
#[derive(Debug, Clone, Copy, PartialEq, Eq, PartialOrd, Ord, Structural)]
pub enum Error {
    /// Wrong number of cards, or a duplication of ranks that no deck allows.
    InvalidHand,
    /// A card token that is not a rank symbol followed by a suit symbol.
    InvalidCardNotation,
    /// A hand string that cannot be read as a list of cards.
    InvalidHandNotation,
}

} // verus!
