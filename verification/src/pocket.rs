//! Pockets: the pieces that a side holds off the board and may drop.

use vstd::prelude::*;
use crate::types::{Color, Role};

verus! {

/// What one side holds, by kind of piece.
#[derive(Clone, Copy, Debug, PartialEq, Eq, Structural)]
pub struct PocketSide {
    pub pawns: u8,
    pub knights: u8,
    pub bishops: u8,
    pub rooks: u8,
    pub queens: u8,
    pub kings: u8,
}

impl PocketSide {
    /// How many pieces of kind `role` the side holds.
    pub open spec fn of(self, role: Role) -> u8 {
        match role {
            Role::Pawn => self.pawns,
            Role::Knight => self.knights,
            Role::Bishop => self.bishops,
            Role::Rook => self.rooks,
            Role::Queen => self.queens,
            Role::King => self.kings,
        }
    }

    /// How many pieces the side holds.
    pub open spec fn total(self) -> nat {
        (self.pawns + self.knights + self.bishops + self.rooks + self.queens + self.kings) as nat
    }

    /// The side with one more piece of kind `role`.
    pub open spec fn plus_one(self, role: Role) -> PocketSide {
        match role {
            Role::Pawn => PocketSide { pawns: (self.pawns + 1) as u8, ..self },
            Role::Knight => PocketSide { knights: (self.knights + 1) as u8, ..self },
            Role::Bishop => PocketSide { bishops: (self.bishops + 1) as u8, ..self },
            Role::Rook => PocketSide { rooks: (self.rooks + 1) as u8, ..self },
            Role::Queen => PocketSide { queens: (self.queens + 1) as u8, ..self },
            Role::King => PocketSide { kings: (self.kings + 1) as u8, ..self },
        }
    }

    /// The side with one piece of kind `role` less.
    pub open spec fn minus_one(self, role: Role) -> PocketSide {
        match role {
            Role::Pawn => PocketSide { pawns: (self.pawns - 1) as u8, ..self },
            Role::Knight => PocketSide { knights: (self.knights - 1) as u8, ..self },
            Role::Bishop => PocketSide { bishops: (self.bishops - 1) as u8, ..self },
            Role::Rook => PocketSide { rooks: (self.rooks - 1) as u8, ..self },
            Role::Queen => PocketSide { queens: (self.queens - 1) as u8, ..self },
            Role::King => PocketSide { kings: (self.kings - 1) as u8, ..self },
        }
    }

    /// Field by field, the sum of two sides.
    pub open spec fn sum(self, other: PocketSide) -> PocketSide {
        PocketSide {
            pawns: (self.pawns + other.pawns) as u8,
            knights: (self.knights + other.knights) as u8,
            bishops: (self.bishops + other.bishops) as u8,
            rooks: (self.rooks + other.rooks) as u8,
            queens: (self.queens + other.queens) as u8,
            kings: (self.kings + other.kings) as u8,
        }
    }

    /// Whether every field of the sum fits.
    pub open spec fn can_add(self, other: PocketSide) -> bool {
        &&& self.pawns + other.pawns <= u8::MAX
        &&& self.knights + other.knights <= u8::MAX
        &&& self.bishops + other.bishops <= u8::MAX
        &&& self.rooks + other.rooks <= u8::MAX
        &&& self.queens + other.queens <= u8::MAX
        &&& self.kings + other.kings <= u8::MAX
    }

    /// A side that holds nothing.
    pub fn new() -> (r: PocketSide)
        ensures
            r.total() == 0,
            forall|role: Role| r.of(role) == 0,
    {
        PocketSide { pawns: 0, knights: 0, bishops: 0, rooks: 0, queens: 0, kings: 0 }
    }

    /// How many pieces of kind `role` the side holds.
    pub fn by_role(&self, role: Role) -> (r: u8)
        ensures
            r == self.of(role),
    {
        match role {
            Role::Pawn => self.pawns,
            Role::Knight => self.knights,
            Role::Bishop => self.bishops,
            Role::Rook => self.rooks,
            Role::Queen => self.queens,
            Role::King => self.kings,
        }
    }

    /// How many pieces the side holds.
    pub fn count(&self) -> (r: usize)
        ensures
            r == self.total(),
    {
        let a: usize = self.pawns as usize + self.knights as usize + self.bishops as usize;
        let b: usize = self.rooks as usize + self.queens as usize + self.kings as usize;
        a + b
    }

    /// Puts one piece of kind `role` into the pocket.
    pub fn put_in(&mut self, role: Role)
        requires
            old(self).of(role) < u8::MAX,
        ensures
            *final(self) == old(self).plus_one(role),
            final(self).total() == old(self).total() + 1,
    {
        match role {
            Role::Pawn => self.pawns = self.pawns + 1,
            Role::Knight => self.knights = self.knights + 1,
            Role::Bishop => self.bishops = self.bishops + 1,
            Role::Rook => self.rooks = self.rooks + 1,
            Role::Queen => self.queens = self.queens + 1,
            Role::King => self.kings = self.kings + 1,
        }
    }

    /// Takes one piece of kind `role` out of the pocket.
    pub fn take_out(&mut self, role: Role)
        requires
            old(self).of(role) > 0,
        ensures
            *final(self) == old(self).minus_one(role),
            final(self).total() + 1 == old(self).total(),
    {
        match role {
            Role::Pawn => self.pawns = self.pawns - 1,
            Role::Knight => self.knights = self.knights - 1,
            Role::Bishop => self.bishops = self.bishops - 1,
            Role::Rook => self.rooks = self.rooks - 1,
            Role::Queen => self.queens = self.queens - 1,
            Role::King => self.kings = self.kings - 1,
        }
    }

    /// Field by field, the sum of two sides.
    pub fn add(self, other: PocketSide) -> (r: PocketSide)
        requires
            self.can_add(other),
        ensures
            r == self.sum(other),
            r.total() == self.total() + other.total(),
    {
        PocketSide {
            pawns: self.pawns + other.pawns,
            knights: self.knights + other.knights,
            bishops: self.bishops + other.bishops,
            rooks: self.rooks + other.rooks,
            queens: self.queens + other.queens,
            kings: self.kings + other.kings,
        }
    }
}

/// One more piece of a role changes the count of that role alone.
pub proof fn lemma_plus_one(side: PocketSide, role: Role, other: Role)
    requires
        side.of(role) < u8::MAX,
    ensures
        side.plus_one(role).of(other) == side.of(other) + if other == role {
            1int
        } else {
            0int
        },
{
}

/// One piece of a role less changes the count of that role alone.
pub proof fn lemma_minus_one(side: PocketSide, role: Role, other: Role)
    requires
        side.of(role) > 0,
    ensures
        side.minus_one(role).of(other) == side.of(other) - if other == role {
            1int
        } else {
            0int
        },
{
}

/// The pockets of both sides.
#[derive(Clone, Copy, Debug, PartialEq, Eq, Structural)]
pub struct Pockets {
    pub white: PocketSide,
    pub black: PocketSide,
}

impl Pockets {
    /// Pockets that hold nothing.
    pub open spec fn empty() -> Pockets {
        Pockets {
            white: PocketSide { pawns: 0, knights: 0, bishops: 0, rooks: 0, queens: 0, kings: 0 },
            black: PocketSide { pawns: 0, knights: 0, bishops: 0, rooks: 0, queens: 0, kings: 0 },
        }
    }

    /// The pocket of `color`.
    pub open spec fn side(self, color: Color) -> PocketSide {
        match color {
            Color::White => self.white,
            Color::Black => self.black,
        }
    }

    /// The pockets in which `color` holds `side` and the other side holds what it held.
    pub open spec fn with_side(self, color: Color, side: PocketSide) -> Pockets {
        match color {
            Color::White => Pockets { white: side, ..self },
            Color::Black => Pockets { black: side, ..self },
        }
    }

    /// How many pieces both sides hold together.
    pub open spec fn total(self) -> nat {
        self.white.total() + self.black.total()
    }

    /// How many pawns both sides hold together.
    pub open spec fn pawns(self) -> nat {
        (self.white.pawns + self.black.pawns) as nat
    }

    /// Whether either side holds a king.
    pub open spec fn holds_king(self) -> bool {
        self.white.kings > 0 || self.black.kings > 0
    }

    /// Pockets that hold nothing.
    pub fn new() -> (r: Pockets)
        ensures
            r == Pockets::empty(),
            r.total() == 0,
            r.pawns() == 0,
            !r.holds_king(),
            forall|color: Color, role: Role| r.side(color).of(role) == 0,
    {
        Pockets { white: PocketSide::new(), black: PocketSide::new() }
    }

    /// The pocket of `color`.
    pub fn by_color(&self, color: Color) -> (r: &PocketSide)
        ensures
            *r == self.side(color),
    {
        match color {
            Color::White => &self.white,
            Color::Black => &self.black,
        }
    }

    /// How many pieces both sides hold together.
    pub fn count(&self) -> (r: usize)
        ensures
            r == self.total(),
    {
        self.white.count() + self.black.count()
    }

    /// Puts one piece of kind `role` into the pocket of `color`.
    pub fn put_in(&mut self, color: Color, role: Role)
        requires
            old(self).side(color).of(role) < u8::MAX,
        ensures
            *final(self) == old(self).with_side(color, old(self).side(color).plus_one(role)),
            final(self).total() == old(self).total() + 1,
    {
        match color {
            Color::White => self.white.put_in(role),
            Color::Black => self.black.put_in(role),
        }
    }

    /// Takes one piece of kind `role` out of the pocket of `color`.
    pub fn take_out(&mut self, color: Color, role: Role)
        requires
            old(self).side(color).of(role) > 0,
        ensures
            *final(self) == old(self).with_side(color, old(self).side(color).minus_one(role)),
            final(self).total() + 1 == old(self).total(),
    {
        match color {
            Color::White => self.white.take_out(role),
            Color::Black => self.black.take_out(role),
        }
    }

    /// Side by side, the sum of two pairs of pockets.
    pub fn add(self, other: Pockets) -> (r: Pockets)
        requires
            self.white.can_add(other.white),
            self.black.can_add(other.black),
        ensures
            r.white == self.white.sum(other.white),
            r.black == self.black.sum(other.black),
            r.total() == self.total() + other.total(),
    {
        Pockets { white: self.white.add(other.white), black: self.black.add(other.black) }
    }
}

} // verus!
