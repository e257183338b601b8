//! Why a setup is not a position of the variant.

use vstd::prelude::*;

verus! {

/// No pieces on the board.
pub const EMPTY_BOARD: u32 = 0x001;

/// A side has no king.
pub const MISSING_KING: u32 = 0x002;

/// A side has too many kings, on the board or in a pocket.
pub const TOO_MANY_KINGS: u32 = 0x004;

/// Pawns on the first or the eighth rank.
pub const PAWNS_ON_BACKRANK: u32 = 0x008;

/// Castling rights without king and rook in place.
pub const INVALID_CASTLING_RIGHTS: u32 = 0x010;

/// An en passant square that no double step can have left.
pub const INVALID_EP_SQUARE: u32 = 0x020;

/// The side that is not to move is in check.
pub const OPPOSITE_CHECK: u32 = 0x040;

/// A check that no move can have given.
pub const IMPOSSIBLE_CHECK: u32 = 0x080;

/// More material than a game of standard chess can reach.
pub const IMPOSSIBLE_MATERIAL: u32 = 0x100;

/// A rule of the variant is broken: board and pockets together hold more than 64 pieces.
pub const VARIANT: u32 = 0x200;

/// A set of reasons, one bit each.
#[derive(Clone, Copy, Debug, PartialEq, Eq, Structural)]
pub struct PositionErrorKinds {
    pub bits: u32,
}

impl PositionErrorKinds {
    /// Whether the set holds every reason in `kinds`.
    pub open spec fn has_all(self, kinds: u32) -> bool {
        self.bits & kinds == kinds
    }

    /// The set without any reason.
    pub fn empty() -> (r: PositionErrorKinds)
        ensures
            r.bits == 0,
    {
        PositionErrorKinds { bits: 0 }
    }

    /// Whether the set holds no reason.
    pub fn is_empty(&self) -> (r: bool)
        ensures
            r == (self.bits == 0),
    {
        self.bits == 0
    }

    /// Whether the set holds every reason in `kinds`.
    pub fn contains(&self, kinds: u32) -> (r: bool)
        ensures
            r == self.has_all(kinds),
    {
        self.bits & kinds == kinds
    }
}

/// A setup was refused, and why.
#[derive(Clone, Copy, Debug, PartialEq, Eq, Structural)]
pub struct BughousePositionError {
    errors: PositionErrorKinds,
}

impl BughousePositionError {
    /// The reasons as a spec value.
    pub closed spec fn spec_kinds(&self) -> PositionErrorKinds {
        self.errors
    }

    /// An error with the given reasons.
    pub fn new(errors: PositionErrorKinds) -> (r: BughousePositionError)
        ensures
            r.spec_kinds() == errors,
    {
        BughousePositionError { errors }
    }

    /// The reasons for which the setup was refused.
    #[verifier::when_used_as_spec(spec_kinds)]
    pub fn kinds(&self) -> (r: PositionErrorKinds)
        ensures
            r == self.spec_kinds(),
    {
        self.errors
    }
}

} // verus!
