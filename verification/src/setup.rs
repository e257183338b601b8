//! Raw data from which a position is set up.

use vstd::prelude::*;
use crate::bitboard::tally;
use crate::pocket::Pockets;
use crate::types::{Color, Piece, Role};

verus! {

/// A piece on a square.
#[derive(Clone, Copy, Debug, PartialEq, Eq)]
pub struct Placed {
    pub square: u8,
    pub piece: Piece,
    /// Whether the piece is a promoted pawn.
    pub promoted: bool,
}

/// A setup that need not be a legal position.
#[derive(Clone, Debug)]
pub struct Setup {
    /// The pieces; one placed later on a square replaces one placed there earlier.
    pub pieces: Vec<Placed>,
    pub pockets: Option<Pockets>,
    pub turn: Color,
    /// The rooks with which a side may castle, as a set of squares.
    pub castling_rights: u64,
    pub ep_square: Option<u8>,
    pub halfmoves: u32,
    pub fullmoves: u32,
}

/// The board after the first `n` of `placed` have been set down.
pub open spec fn placement(placed: Seq<Placed>, n: nat) -> Map<u8, Piece>
    decreases n,
{
    if n == 0 {
        Map::empty()
    } else {
        placement(placed, (n - 1) as nat).insert(placed[n - 1].square, placed[n - 1].piece)
    }
}

/// The squares marked as promoted after the first `n` of `placed` have been set down.
pub open spec fn promotions(placed: Seq<Placed>, n: nat) -> Set<u8>
    decreases n,
{
    if n == 0 {
        Set::empty()
    } else if placed[n - 1].promoted {
        promotions(placed, (n - 1) as nat).insert(placed[n - 1].square)
    } else {
        promotions(placed, (n - 1) as nat).remove(placed[n - 1].square)
    }
}

impl Setup {
    /// Squares lie on the board, and the move number is at least one.
    pub open spec fn wf(self) -> bool {
        &&& forall|i: int| 0 <= i < self.pieces@.len() ==> (#[trigger] self.pieces@[i]).square < 64
        &&& self.ep_square is Some ==> self.ep_square.unwrap() < 64
        &&& self.fullmoves >= 1
    }

    /// The pieces by square.
    pub open spec fn board(self) -> Map<u8, Piece> {
        placement(self.pieces@, self.pieces@.len())
    }

    /// The squares marked as promoted.
    pub open spec fn promoted(self) -> Set<u8> {
        promotions(self.pieces@, self.pieces@.len())
    }

    /// The pockets, empty where the setup names none.
    pub open spec fn pockets_or_empty(self) -> Pockets {
        match self.pockets {
            Some(pockets) => pockets,
            None => Pockets::empty(),
        }
    }

    /// The number of pawns on the board and in the pockets.
    pub open spec fn pawn_total(self) -> nat {
        tally(
            |sq: u8| self.board().contains_key(sq) && self.board()[sq].role == Role::Pawn,
            64,
        ) + self.pockets_or_empty().pawns()
    }

    /// An empty board with white to move at move one.
    pub fn empty() -> (r: Setup)
        ensures
            r.wf(),
            r.pieces@.len() == 0,
            r.pockets is None,
            r.turn == Color::White,
            r.castling_rights == 0,
            r.ep_square is None,
            r.halfmoves == 0,
            r.fullmoves == 1,
    {
        Setup {
            pieces: Vec::new(),
            pockets: None,
            turn: Color::White,
            castling_rights: 0,
            ep_square: None,
            halfmoves: 0,
            fullmoves: 1,
        }
    }

    /// Sets `piece` down on `square`.
    pub fn put(&mut self, square: u8, piece: Piece)
        requires
            square < 64,
            old(self).wf(),
        ensures
            final(self).wf(),
            final(self).pieces@ == old(self).pieces@.push(Placed { square, piece, promoted: false }),
            final(self).board() == old(self).board().insert(square, piece),
            final(self).promoted() == old(self).promoted().remove(square),
            final(self).pockets == old(self).pockets,
            final(self).turn == old(self).turn,
            final(self).castling_rights == old(self).castling_rights,
            final(self).ep_square == old(self).ep_square,
            final(self).halfmoves == old(self).halfmoves,
            final(self).fullmoves == old(self).fullmoves,
    {
        self.pieces.push(Placed { square, piece, promoted: false });
        proof {
            let before = old(self).pieces@;
            let after = self.pieces@;
            lemma_placement_prefix(before, after, before.len());
        }
    }

    /// Tests `wf`.
    pub fn is_wf(&self) -> (r: bool)
        ensures
            r == self.wf(),
    {
        let mut i: usize = 0;
        while i < self.pieces.len()
            invariant
                i <= self.pieces@.len(),
                forall|j: int| 0 <= j < i ==> (#[trigger] self.pieces@[j]).square < 64,
            decreases self.pieces@.len() - i,
        {
            if self.pieces[i].square >= 64 {
                return false;
            }
            i = i + 1;
        }
        let ep = match self.ep_square {
            Some(sq) => sq < 64,
            None => true,
        };
        ep && self.fullmoves >= 1
    }
}

/// What is set down first does not depend on what follows.
pub proof fn lemma_placement_prefix(a: Seq<Placed>, b: Seq<Placed>, n: nat)
    requires
        n <= a.len() <= b.len(),
        forall|i: int| 0 <= i < a.len() ==> a[i] == b[i],
    ensures
        placement(a, n) == placement(b, n),
        promotions(a, n) == promotions(b, n),
    decreases n,
{
    if n > 0 {
        lemma_placement_prefix(a, b, (n - 1) as nat);
    }
}

} // verus!
