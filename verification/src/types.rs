//! Plain values shared by the position model and the search tree.

use vstd::prelude::*;

verus! {

/// One of the two sides.
#[derive(Clone, Copy, Debug, PartialEq, Eq, Structural)]
pub enum Color {
    Black,
    White,
}

impl Color {
    /// The other side.
    pub open spec fn opposite(self) -> Color {
        match self {
            Color::Black => Color::White,
            Color::White => Color::Black,
        }
    }

    /// Whether this is the white side.
    pub fn is_white(self) -> (r: bool)
        ensures
            r == (self == Color::White),
    {
        match self {
            Color::White => true,
            Color::Black => false,
        }
    }

    /// White for `true`, black for `false`.
    pub fn from_white(white: bool) -> (r: Color)
        ensures
            r == if white { Color::White } else { Color::Black },
    {
        if white {
            Color::White
        } else {
            Color::Black
        }
    }

    /// The other side.
    pub fn other(self) -> (r: Color)
        ensures
            r == self.opposite(),
    {
        match self {
            Color::Black => Color::White,
            Color::White => Color::Black,
        }
    }
}

/// A kind of piece.
#[derive(Clone, Copy, Debug, PartialEq, Eq, Structural)]
pub enum Role {
    Pawn,
    Knight,
    Bishop,
    Rook,
    Queen,
    King,
}

impl Role {
    /// The usual number of a role: pawn 1, knight 2, bishop 3, rook 4, queen 5, king 6.
    pub open spec fn spec_number(self) -> u8 {
        match self {
            Role::Pawn => 1,
            Role::Knight => 2,
            Role::Bishop => 3,
            Role::Rook => 4,
            Role::Queen => 5,
            Role::King => 6,
        }
    }

    /// The role with number `n`; every number past five stands for the king.
    pub open spec fn spec_numbered(n: u8) -> Role {
        if n == 1 {
            Role::Pawn
        } else if n == 2 {
            Role::Knight
        } else if n == 3 {
            Role::Bishop
        } else if n == 4 {
            Role::Rook
        } else if n == 5 {
            Role::Queen
        } else {
            Role::King
        }
    }

    /// The usual number of a role.
    #[verifier::when_used_as_spec(spec_number)]
    pub fn number(self) -> (n: u8)
        ensures
            n == self.spec_number(),
            1 <= n <= 6,
            Role::spec_numbered(n) == self,
    {
        match self {
            Role::Pawn => 1,
            Role::Knight => 2,
            Role::Bishop => 3,
            Role::Rook => 4,
            Role::Queen => 5,
            Role::King => 6,
        }
    }

    /// The role with number `n`.
    #[verifier::when_used_as_spec(spec_numbered)]
    pub fn numbered(n: u8) -> (r: Role)
        ensures
            r == Role::spec_numbered(n),
    {
        if n == 1 {
            Role::Pawn
        } else if n == 2 {
            Role::Knight
        } else if n == 3 {
            Role::Bishop
        } else if n == 4 {
            Role::Rook
        } else if n == 5 {
            Role::Queen
        } else {
            Role::King
        }
    }

    /// The role behind an optional number.
    pub fn numbered_opt(n: Option<u8>) -> (r: Option<Role>)
        ensures
            r == match n {
                Some(n) => Some(Role::spec_numbered(n)),
                None => None,
            },
    {
        match n {
            Some(n) => Some(Role::numbered(n)),
            None => None,
        }
    }

    /// Equality of roles.
    pub fn same(self, other: Role) -> (r: bool)
        ensures
            r == (self == other),
    {
        self.number() == other.number()
    }

    /// Equality of optional roles.
    pub fn same_opt(a: Option<Role>, b: Option<Role>) -> (r: bool)
        ensures
            r == (a == b),
    {
        match (a, b) {
            (Some(x), Some(y)) => x.same(y),
            (None, None) => true,
            _ => false,
        }
    }
}

/// A piece of one side.
#[derive(Clone, Copy, Debug, PartialEq, Eq, Structural)]
pub struct Piece {
    pub color: Color,
    pub role: Role,
}

impl Piece {
    /// The piece of the white side if `white`, else of the black side, with the role numbered `role`.
    pub fn numbered(white: bool, role: u8) -> (r: Piece)
        ensures
            r == (Piece { color: if white { Color::White } else { Color::Black }, role: Role::spec_numbered(role) }),
    {
        Piece { color: Color::from_white(white), role: Role::numbered(role) }
    }
}

/// How castling moves are written down.
#[derive(Clone, Copy, Debug, PartialEq, Eq, Structural)]
pub enum CastlingMode {
    Standard,
    Chess960,
}

impl CastlingMode {
    /// Whether this is the mode of Chess960.
    pub fn is_chess960(self) -> (r: bool)
        ensures
            r == (self == CastlingMode::Chess960),
    {
        match self {
            CastlingMode::Standard => false,
            CastlingMode::Chess960 => true,
        }
    }
}

/// The wing on which a king castles.
#[derive(Clone, Copy, Debug, PartialEq, Eq, Structural)]
pub enum CastlingSide {
    KingSide,
    QueenSide,
}

impl CastlingSide {
    /// Whether this is the queen's wing.
    pub fn is_queen_side(self) -> (r: bool)
        ensures
            r == (self == CastlingSide::QueenSide),
    {
        match self {
            CastlingSide::KingSide => false,
            CastlingSide::QueenSide => true,
        }
    }
}

/// How a finished game ended.
#[derive(Clone, Copy, Debug, PartialEq, Eq, Structural)]
pub enum Outcome {
    Decisive { winner: Color },
    Draw,
}

/// Whether `sq` names one of the 64 squares (a1 is 0, h1 is 7, h8 is 63).
pub open spec fn on_board(sq: u8) -> bool {
    sq < 64
}

/// The file of a square, 0 for the a-file.
pub open spec fn file_of(sq: u8) -> int {
    sq as int % 8
}

/// The rank of a square, 0 for the first rank.
pub open spec fn rank_of(sq: u8) -> int {
    sq as int / 8
}

/// A move of the variant. Squares are indices below 64.
#[derive(Clone, Copy, Debug, PartialEq, Eq)]
pub enum Move {
    Normal { role: Role, from: u8, capture: Option<Role>, to: u8, promotion: Option<Role> },
    EnPassant { from: u8, to: u8 },
    Castle { king: u8, rook: u8 },
    Put { role: Role, to: u8 },
}

impl Move {
    /// Every square that the move names lies on the board.
    pub open spec fn wf(self) -> bool {
        match self {
            Move::Normal { from, to, .. } => on_board(from) && on_board(to),
            Move::EnPassant { from, to } => on_board(from) && on_board(to),
            Move::Castle { king, rook } => on_board(king) && on_board(rook),
            Move::Put { to, .. } => on_board(to),
        }
    }

    /// A normal move, its roles given by number.
    pub fn normal(role: u8, from: u8, capture: Option<u8>, to: u8, promotion: Option<u8>) -> (r: Move)
        ensures
            r == (Move::Normal {
                role: Role::spec_numbered(role),
                from,
                capture: match capture {
                    Some(n) => Some(Role::spec_numbered(n)),
                    None => None,
                },
                to,
                promotion: match promotion {
                    Some(n) => Some(Role::spec_numbered(n)),
                    None => None,
                },
            }),
    {
        Move::Normal {
            role: Role::numbered(role),
            from,
            capture: Role::numbered_opt(capture),
            to,
            promotion: Role::numbered_opt(promotion),
        }
    }

    /// An en passant capture.
    pub fn en_passant(from: u8, to: u8) -> (r: Move)
        ensures
            r == (Move::EnPassant { from, to }),
    {
        Move::EnPassant { from, to }
    }

    /// A castling move.
    pub fn castle(king: u8, rook: u8) -> (r: Move)
        ensures
            r == (Move::Castle { king, rook }),
    {
        Move::Castle { king, rook }
    }

    /// A drop, its role given by number.
    pub fn put(role: u8, to: u8) -> (r: Move)
        ensures
            r == (Move::Put { role: Role::spec_numbered(role), to }),
    {
        Move::Put { role: Role::numbered(role), to }
    }

    /// Equality of moves.
    pub fn same(&self, other: &Move) -> (r: bool)
        ensures
            r == (*self == *other),
    {
        match (*self, *other) {
            (
                Move::Normal { role, from, capture, to, promotion },
                Move::Normal { role: role2, from: from2, capture: capture2, to: to2, promotion: promotion2 },
            ) => role.same(role2) && from == from2 && Role::same_opt(capture, capture2) && to == to2
                && Role::same_opt(promotion, promotion2),
            (Move::EnPassant { from, to }, Move::EnPassant { from: from2, to: to2 }) => from == from2
                && to == to2,
            (Move::Castle { king, rook }, Move::Castle { king: king2, rook: rook2 }) => king == king2
                && rook == rook2,
            (Move::Put { role, to }, Move::Put { role: role2, to: to2 }) => role.same(role2) && to
                == to2,
            _ => false,
        }
    }

    /// Tests `wf`.
    pub fn is_wf(&self) -> (r: bool)
        ensures
            r == self.wf(),
    {
        match *self {
            Move::Normal { from, to, .. } => from < 64 && to < 64,
            Move::EnPassant { from, to } => from < 64 && to < 64,
            Move::Castle { king, rook } => king < 64 && rook < 64,
            Move::Put { to, .. } => to < 64,
        }
    }
}

} // verus!
