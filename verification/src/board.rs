//! Positions of the variant: a standard position and the pockets of both sides.

use vstd::prelude::*;
use crate::bitboard::{
    complement, contains, count_squares, first_rank, home_rank, intersection, lemma_empty_has_none,
    lemma_square_bit_injective, lemma_tally_agree, lemma_tally_bound, lemma_tally_one_new, member,
    on_back_ranks, single_square, square_bit, tally,
};
use crate::drops::{drops, is_drop, lemma_drops, on_back_rank, push_drops};
pub use crate::error::BughousePositionError;
use crate::error::{PositionErrorKinds, IMPOSSIBLE_MATERIAL, TOO_MANY_KINGS, VARIANT};
use crate::pocket::{lemma_minus_one, lemma_plus_one, PocketSide, Pockets};
use crate::rules;
use crate::rules::{
    board_of, castling_moves_of, castling_rights_of, checkers_of, en_passant_moves_of,
    ep_square_of, fullmoves_of, halfmoves_of, initial_pieces, king_square, legal_moves_of,
    kinds_of, occupied_count, pawn_count, pawn_on, pieces, played, position_of, promoted_in,
    san_candidates_of, strictly_between, turn_of, validated,
};
use crate::setup::{placement, promotions, Setup};
use crate::types::{CastlingMode, CastlingSide, Color, Move, Outcome, Piece, Role};
use shakmaty::{Board, Chess, PositionError};

verus! {

/// A position of the variant.
#[derive(Debug)]
pub struct Bughouse {
    chess: Chess,
    pockets: Pockets,
}

/// A move that was refused as illegal, with the position as it was.
#[derive(Debug)]
pub struct PlayError {
    pub m: Move,
    pub position: Bughouse,
}

impl Clone for Bughouse {
    fn clone(&self) -> (r: Bughouse)
        ensures
            r == *self,
    {
        Bughouse { chess: rules::chess_clone(&self.chess), pockets: self.pockets }
    }
}

impl Default for Bughouse {
    fn default() -> (r: Bughouse)
        ensures
            r.wf(),
            r.board() == initial_pieces(),
            r.spec_pockets() == Pockets::empty(),
            r.spec_turn() == Color::White,
    {
        Bughouse::new()
    }
}

/// What the variant objects to in a setup that standard chess accepts: more than 64
/// pieces on the board and in the pockets together, and a king in a pocket.
pub open spec fn objections(pockets: Pockets, occupied: nat) -> u32 {
    (if pockets.total() + occupied > 64 {
        VARIANT
    } else {
        0u32
    }) | (if pockets.holds_king() {
        TOO_MANY_KINGS
    } else {
        0u32
    })
}

/// The square of the one piece that gives check, where exactly one does.
pub open spec fn sole_checker(checkers: u64) -> Option<u8> {
    if exists|sq: u8| sq < 64 && checkers == square_bit(sq) {
        Some(choose|sq: u8| sq < 64 && checkers == square_bit(sq))
    } else {
        None
    }
}

/// What the engine makes of `setup`: a standard position, or a refusal.
pub open spec fn judged(setup: Setup, mode: CastlingMode) -> Result<Chess, PositionError<Chess>> {
    validated(
        setup.board(),
        setup.promoted(),
        setup.turn,
        setup.castling_rights,
        setup.ep_square,
        setup.halfmoves,
        setup.fullmoves,
        mode,
    )
}

/// The engine's objections to `setup`, one bit each.
pub open spec fn engine_kinds(setup: Setup, mode: CastlingMode) -> u32 {
    match judged(setup, mode) {
        Ok(_) => 0,
        Err(refused) => kinds_of(refused),
    }
}

/// The standard position that the engine builds from `setup`, refused or not.
pub open spec fn engine_position(setup: Setup, mode: CastlingMode) -> Chess {
    match judged(setup, mode) {
        Ok(chess) => chess,
        Err(refused) => position_of(refused),
    }
}

/// Whether board and pockets hold at most 64 pieces and at most 32 pawns.
pub open spec fn material_allowed(setup: Setup) -> bool {
    occupancy(setup.board()) + setup.pockets_or_empty().total() <= 64 && setup.pawn_total() <= 32
}

/// The objections for which `setup` is refused, one bit each: those of the engine
/// and of the variant, without the engine's objection to the material where
/// `material_allowed` holds. The setup is accepted where none is left.
pub open spec fn refusal(setup: Setup, mode: CastlingMode) -> u32 {
    let found = engine_kinds(setup, mode) | objections(
        setup.pockets_or_empty(),
        occupancy(setup.board()),
    );
    if material_allowed(setup) {
        found & !IMPOSSIBLE_MATERIAL
    } else {
        found
    }
}

/// The number of squares on which `board` holds a piece.
pub open spec fn occupancy(board: Map<u8, Piece>) -> nat {
    tally(|sq: u8| board.contains_key(sq), 64)
}

impl Bughouse {
    /// The standard position below the pockets.
    pub closed spec fn base(self) -> Chess {
        self.chess
    }

    /// The pockets of both sides.
    pub closed spec fn spec_pockets(self) -> Pockets {
        self.pockets
    }

    /// The pieces on the board, by square.
    pub open spec fn board(self) -> Map<u8, Piece> {
        pieces(board_of(self.base()))
    }

    /// The squares whose piece is a promoted pawn.
    pub open spec fn promoted(self) -> Set<u8> {
        promoted_in(board_of(self.base()))
    }

    /// The side to move.
    pub open spec fn spec_turn(self) -> Color {
        turn_of(self.base())
    }

    /// The pocket of the side to move.
    pub open spec fn our_side(self) -> PocketSide {
        self.spec_pockets().side(self.spec_turn())
    }

    /// The number of pawns on the board and in the pockets.
    pub open spec fn pawn_total(self) -> nat {
        pawn_count(board_of(self.base())) + self.spec_pockets().pawns()
    }

    /// The number of pieces on the board and in the pockets.
    pub open spec fn piece_total(self) -> nat {
        self.spec_pockets().total() + occupied_count(board_of(self.base()))
    }

    /// Board and pockets together hold at most 64 pieces.
    pub open spec fn wf(self) -> bool {
        self.piece_total() <= 64
    }

    /// Whether `m` takes a king that is no promoted pawn.
    pub open spec fn takes_king(self, m: Move) -> bool {
        m matches Move::Normal { capture: Some(Role::King), to, .. } && !self.promoted().contains(
            to,
        )
    }

    /// Whether the side to move has its king.
    pub open spec fn has_king(self) -> bool {
        rules::has_king(self.base())
    }

    /// Whether `sq` lies strictly between the one piece that gives check and the king
    /// of the side to move.
    pub open spec fn blocks_check(self, sq: u8) -> bool {
        match (
            sole_checker(checkers_of(self.base())),
            king_square(board_of(self.base()), self.spec_turn()),
        ) {
            (Some(checker), Some(king)) => strictly_between(checker, sq, king),
            _ => false,
        }
    }

    /// Whether a piece may be dropped on `sq`: on any empty square while the side to
    /// move is not in check, on the squares strictly between the checking piece and
    /// the king, which are empty, while one piece gives check, and nowhere while
    /// several do.
    pub open spec fn is_put_square(self, sq: u8) -> bool {
        !self.board().contains_key(sq) && (checkers_of(self.base()) == 0 || self.blocks_check(sq))
    }

    /// The squares on which a piece may be dropped, as a property of squares.
    pub open spec fn put_squares(self) -> spec_fn(u8) -> bool {
        |sq: u8| self.is_put_square(sq)
    }

    /// The legal moves of standard chess; none where the side to move has no king.
    pub open spec fn base_moves(self) -> Seq<Move> {
        if self.has_king() {
            legal_moves_of(self.base())
        } else {
            Seq::empty()
        }
    }

    /// The legal moves: those of standard chess, then the drops.
    pub open spec fn legal_moves_spec(self) -> Seq<Move> {
        self.base_moves() + drops(self.put_squares(), self.our_side())
    }

    /// Whether `m` is a legal move on the board or a legal drop.
    pub open spec fn playable(self, m: Move) -> bool {
        &&& m.wf()
        &&& match m {
            Move::Put { role, to } => is_drop(self.put_squares(), self.our_side(), role, to),
            _ => self.has_king() && legal_moves_of(self.base()).contains(m),
        }
    }

    /// The legal moves by which a piece of kind `role` reaches `to`, castling excluded.
    pub open spec fn san_candidates_spec(self, role: Role, to: u8) -> Seq<Move> {
        (if self.has_king() {
            san_candidates_of(self.base(), role, to)
        } else {
            Seq::empty()
        }) + (if is_drop(self.put_squares(), self.our_side(), role, to) {
            seq![Move::Put { role, to }]
        } else {
            Seq::empty()
        })
    }

    /// Whether position-repetition tracking must start anew after `m`: after castling,
    /// after a move from or to a square that carries a castling right, and after a
    /// king's move while its side still has a castling right on its own back rank.
    pub open spec fn irreversible(self, m: Move) -> bool {
        let rights = castling_rights_of(self.base());
        match m {
            Move::Castle { .. } => true,
            Move::Normal { role, from, to, .. } => member(rights, from) || member(rights, to) || (
            role == Role::King && rights & home_rank(self.spec_turn()) != 0),
            _ => false,
        }
    }

    /// The role for which the capturing side is credited when it takes a piece on
    /// `to`: a pawn if the piece is a promoted pawn, else the piece's own role.
    pub open spec fn credited(self, captured: Role, to: u8) -> Role {
        if self.promoted().contains(to) {
            Role::Pawn
        } else {
            captured
        }
    }

    /// The pockets after `m`: a capture adds the credited role to the mover's pocket,
    /// an en passant capture a pawn, and a drop takes its piece out.
    pub open spec fn pockets_after(self, m: Move) -> Pockets {
        let turn = self.spec_turn();
        let ours = self.our_side();
        match m {
            Move::Normal { capture: Some(captured), to, .. } => self.spec_pockets().with_side(
                turn,
                ours.plus_one(self.credited(captured, to)),
            ),
            Move::EnPassant { .. } => self.spec_pockets().with_side(turn, ours.plus_one(Role::Pawn)),
            Move::Put { role, .. } => self.spec_pockets().with_side(turn, ours.minus_one(role)),
            _ => self.spec_pockets(),
        }
    }

    /// By how much `m` changes the number of pieces of kind `role` in the mover's
    /// pocket: a capture adds one of the credited role, an en passant capture one
    /// pawn, a drop takes one of its role, and nothing else changes.
    pub open spec fn pocket_change(self, m: Move, role: Role) -> int {
        match m {
            Move::Normal { capture: Some(captured), to, .. } => if role == self.credited(
                captured,
                to,
            ) {
                1
            } else {
                0
            },
            Move::EnPassant { .. } => if role == Role::Pawn {
                1
            } else {
                0
            },
            Move::Put { role: dropped, .. } => if role == dropped {
                -1
            } else {
                0
            },
            _ => 0,
        }
    }

    /// The position after `m`.
    pub closed spec fn after(self, m: Move) -> Bughouse {
        Bughouse { chess: played(self.chess, m), pockets: self.pockets_after(m) }
    }

    /// How the game has ended: with no legal move left, the side to move has lost if
    /// it is in check, and the game is drawn if it is not. Otherwise the game goes on.
    pub open spec fn outcome_spec(self) -> Option<Outcome> {
        if self.legal_moves_spec().len() > 0 {
            None
        } else if checkers_of(self.base()) != 0 {
            Some(Outcome::Decisive { winner: self.spec_turn().opposite() })
        } else {
            Some(Outcome::Draw)
        }
    }

    /// The position at the start of a game, with empty pockets.
    pub fn new() -> (r: Bughouse)
        ensures
            r.wf(),
            r.board() == initial_pieces(),
            r.promoted() == Set::<u8>::empty(),
            r.spec_pockets() == Pockets::empty(),
            r.spec_turn() == Color::White,
            castling_rights_of(r.base()) == 0x8100_0000_0000_0081u64,
            ep_square_of(r.base()) is None,
            halfmoves_of(r.base()) == 0,
            fullmoves_of(r.base()) == 1,
    {
        let chess = rules::chess_initial();
        proof {
            lemma_occupancy(board_of(chess));
        }
        Bughouse { chess, pockets: Pockets::new() }
    }

    /// The side to move.
    pub fn turn(&self) -> (r: Color)
        ensures
            r == self.spec_turn(),
    {
        rules::chess_turn(&self.chess)
    }

    /// The pockets of both sides.
    pub fn pockets(&self) -> (r: &Pockets)
        ensures
            *r == self.spec_pockets(),
    {
        &self.pockets
    }

    /// The standard position below the pockets.
    pub fn chess(&self) -> (r: &Chess)
        ensures
            *r == self.base(),
    {
        &self.chess
    }

    /// The rooks with which a side may still castle, as a set of squares.
    pub fn castling_rights(&self) -> (r: u64)
        ensures
            r == castling_rights_of(self.base()),
    {
        rules::chess_castling_rights(&self.chess)
    }

    /// The square on which a pawn may be captured en passant.
    pub fn ep_square(&self) -> (r: Option<u8>)
        ensures
            r == if self.has_king() {
                ep_square_of(self.base())
            } else {
                None
            },
            r is Some ==> r.unwrap() < 64,
    {
        if self.king_in_place() {
            rules::chess_ep_square(&self.chess)
        } else {
            None
        }
    }

    /// Half-moves since the last capture or pawn move.
    pub fn halfmoves(&self) -> (r: u32)
        ensures
            r == halfmoves_of(self.base()),
    {
        rules::chess_halfmoves(&self.chess)
    }

    /// The number of the current move.
    pub fn fullmoves(&self) -> (r: u32)
        ensures
            r == fullmoves_of(self.base()),
            r >= 1,
    {
        rules::chess_fullmoves(&self.chess)
    }

    /// The piece on `sq`.
    pub fn piece_at(&self, sq: u8) -> (r: Option<Piece>)
        requires
            sq < 64,
        ensures
            r == if self.board().contains_key(sq) {
                Some(self.board()[sq])
            } else {
                None
            },
    {
        rules::board_piece_at(rules::chess_board(&self.chess), sq)
    }

    /// The occupied squares.
    pub fn occupied(&self) -> (r: u64)
        ensures
            forall|sq: u8| sq < 64 ==> (#[trigger] member(r, sq) <==> self.board().contains_key(sq)),
    {
        rules::board_occupied(rules::chess_board(&self.chess))
    }

    /// The squares whose piece is a promoted pawn.
    pub fn promoted_squares(&self) -> (r: u64)
        ensures
            forall|sq: u8| sq < 64 ==> (#[trigger] member(r, sq) <==> self.promoted().contains(sq)),
    {
        rules::board_promoted(rules::chess_board(&self.chess))
    }

    /// The number of pieces on the board and in the pockets.
    pub fn count_pieces(&self) -> (r: usize)
        ensures
            r == self.piece_total(),
    {
        let occupied_squares = rules::board_occupied(rules::chess_board(&self.chess));
        proof {
            let b = board_of(self.chess);
            lemma_tally_agree(
                |sq: u8| member(occupied_squares, sq),
                |sq: u8| pieces(b).contains_key(sq),
                64,
            );
        }
        self.pockets.count() + count_squares(occupied_squares)
    }

    /// The number of pawns on the board and in the pockets.
    pub fn count_pawns(&self) -> (r: usize)
        ensures
            r == self.pawn_total(),
    {
        let pawn_squares = rules::board_pawns(rules::chess_board(&self.chess));
        proof {
            let b = board_of(self.chess);
            lemma_tally_agree(|sq: u8| member(pawn_squares, sq), |sq: u8| pawn_on(b, sq), 64);
        }
        let held: usize = self.pockets.white.pawns as usize + self.pockets.black.pawns as usize;
        held + count_squares(pawn_squares)
    }

    /// The pieces that give check to the side to move, as a set of squares.
    pub fn checkers(&self) -> (r: u64)
        ensures
            r == checkers_of(self.base()),
    {
        rules::chess_checkers(&self.chess)
    }

    /// Whether the side to move has its king.
    pub fn king_in_place(&self) -> (r: bool)
        ensures
            r == self.has_king(),
    {
        let turn = rules::chess_turn(&self.chess);
        rules::board_king_of(rules::chess_board(&self.chess), turn).is_some()
    }

    /// The pocket of the side to move.
    pub fn our_pocket(&self) -> (r: &PocketSide)
        ensures
            *r == self.our_side(),
    {
        self.pockets.by_color(self.turn())
    }

    /// The squares on which the side to move may drop a piece: the empty squares while
    /// it is not in check, the squares strictly between the checking piece and the
    /// king while one piece gives check, none while several do. A position in check
    /// whose side to move has no king offers none.
    pub fn legal_put_squares(&self) -> (r: u64)
        ensures
            forall|sq: u8| sq < 64 ==> (#[trigger] member(r, sq) <==> self.is_put_square(sq)),
            checkers_of(self.base()) == 0 ==> forall|sq: u8|
                sq < 64 ==> (#[trigger] member(r, sq) <==> !self.board().contains_key(sq)),
            checkers_of(self.base()) != 0 ==> forall|sq: u8|
                sq < 64 ==> (#[trigger] member(r, sq) <==> self.blocks_check(sq)),
            checkers_of(self.base()) != 0 && sole_checker(checkers_of(self.base())) is None
                ==> r == 0,
    {
        let checkers = rules::chess_checkers(&self.chess);
        if checkers == 0 {
            complement(rules::board_occupied(rules::chess_board(&self.chess)))
        } else {
            let board = rules::chess_board(&self.chess);
            match (single_square(checkers), rules::board_king_of(board, self.turn())) {
                (Some(checker), Some(king)) => {
                    proof {
                        let chosen = sole_checker(checkers).unwrap();
                        lemma_square_bit_injective(chosen, checker);
                    }
                    rules::between(checker, king)
                },
                _ => {
                    proof {
                        assert forall|sq: u8| sq < 64 implies !#[trigger] member(0, sq) by {
                            lemma_empty_has_none(sq);
                        }
                    }
                    0
                },
            }
        }
    }

    /// The legal moves: those of standard chess in the engine's order, then for each
    /// drop square the drops of knight, bishop, rook and queen, then the pawn drops.
    pub fn legal_moves(&self) -> (moves: Vec<Move>)
        ensures
            moves@ == self.legal_moves_spec(),
            forall|i: int| 0 <= i < moves@.len() ==> self.playable(#[trigger] moves@[i]),
            forall|i: int|
                0 <= i < moves@.len() ==> (#[trigger] moves@[i] matches Move::Put {
                    role: Role::Pawn,
                    to,
                } ==> !on_back_rank(to)),
    {
        let mut moves = if self.king_in_place() {
            rules::chess_legal_moves(&self.chess)
        } else {
            Vec::new()
        };
        let ghost base = moves@;
        let targets = self.legal_put_squares();
        push_drops(&mut moves, targets, self.our_pocket(), Ghost(self.put_squares()));
        proof {
            let dropped = drops(self.put_squares(), self.our_side());
            assert forall|i: int| 0 <= i < moves@.len() implies self.playable(
                #[trigger] moves@[i],
            ) by {
                let m = moves@[i];
                if i < base.len() {
                    assert(base[i] == m);
                } else {
                    assert(dropped[i - base.len()] == m);
                    lemma_drops(self.put_squares(), self.our_side(), m);
                }
            }
        }
        moves
    }

    /// The legal moves by which a piece of kind `role` reaches `to`, castling excluded:
    /// those of standard chess, then the drop if it is among the legal moves.
    pub fn san_candidates(&self, role: Role, to: u8) -> (moves: Vec<Move>)
        requires
            to < 64,
        ensures
            moves@ == self.san_candidates_spec(role, to),
    {
        let mut moves = if self.king_in_place() {
            rules::chess_san_candidates(&self.chess, role, to)
        } else {
            Vec::new()
        };
        let ghost base = moves@;
        if !role.same(Role::King) && self.our_pocket().by_role(role) > 0 && contains(
            self.legal_put_squares(),
            to,
        ) && (!role.same(Role::Pawn) || !on_back_ranks(to)) {
            moves.push(Move::Put { role, to });
            assert(moves@ =~= base + seq![Move::Put { role, to }]);
        } else {
            assert(moves@ =~= base + Seq::<Move>::empty());
        }
        moves
    }

    /// The legal castling moves to one wing.
    pub fn castling_moves(&self, side: CastlingSide) -> (moves: Vec<Move>)
        ensures
            moves@ == if self.has_king() {
                castling_moves_of(self.base(), side)
            } else {
                Seq::empty()
            },
    {
        if self.king_in_place() {
            rules::chess_castling_moves(&self.chess, side)
        } else {
            Vec::new()
        }
    }

    /// The legal en passant captures.
    pub fn en_passant_moves(&self) -> (moves: Vec<Move>)
        ensures
            moves@ == if self.has_king() {
                en_passant_moves_of(self.base())
            } else {
                Seq::empty()
            },
    {
        if self.king_in_place() {
            rules::chess_en_passant_moves(&self.chess)
        } else {
            Vec::new()
        }
    }

    /// Whether position-repetition tracking must start anew after `m`.
    pub fn is_irreversible(&self, m: &Move) -> (r: bool)
        requires
            m.wf(),
        ensures
            r == self.irreversible(*m),
    {
        match *m {
            Move::Castle { .. } => true,
            Move::Normal { role, from, to, .. } => {
                let rights = self.castling_rights();
                let can_castle = intersection(rights, first_rank(self.turn())) != 0;
                contains(rights, from) || contains(rights, to) || (role.same(Role::King)
                    && can_castle)
            },
            _ => false,
        }
    }

    /// No side ever lacks the material to win: a drop can bring any piece back.
    pub fn has_insufficient_material(&self, color: Color) -> (r: bool)
        ensures
            !r,
    {
        false
    }

    /// The variant has no end of its own.
    pub fn is_variant_end(&self) -> (r: bool)
        ensures
            !r,
    {
        false
    }

    /// The variant has no outcome of its own.
    pub fn variant_outcome(&self) -> (r: Option<Outcome>)
        ensures
            r is None,
    {
        None
    }

    /// How the game has ended, if it has.
    pub fn outcome(&self) -> (r: Option<Outcome>)
        ensures
            r == self.outcome_spec(),
    {
        let moves = self.legal_moves();
        if moves.len() > 0 {
            None
        } else if self.checkers() != 0 {
            Some(Outcome::Decisive { winner: self.turn().other() })
        } else {
            Some(Outcome::Draw)
        }
    }

    /// What a move does to the pockets, count by count: the pocket of the side that
    /// does not move stays as it is, and in the mover's pocket each count changes by
    /// `pocket_change`.
    pub proof fn lemma_pockets_after(self, m: Move)
        requires
            forall|role: Role| self.our_side().of(role) < u8::MAX,
            m matches Move::Put { role, .. } ==> self.our_side().of(role) > 0,
        ensures
            self.pockets_after(m).side(self.spec_turn().opposite()) == self.spec_pockets().side(
                self.spec_turn().opposite(),
            ),
            forall|role: Role|
                self.pockets_after(m).side(self.spec_turn()).of(role) == self.our_side().of(role)
                    + #[trigger] self.pocket_change(m, role),
    {
        let turn = self.spec_turn();
        let ours = self.our_side();
        assert forall|role: Role|
            self.pockets_after(m).side(turn).of(role) == ours.of(role)
                + #[trigger] self.pocket_change(m, role) by {
            match m {
                Move::Normal { capture: Some(captured), to, .. } => {
                    let credited = self.credited(captured, to);
                    assert(ours.of(credited) < u8::MAX);
                    lemma_plus_one(ours, credited, role);
                },
                Move::EnPassant { .. } => {
                    assert(ours.of(Role::Pawn) < u8::MAX);
                    lemma_plus_one(ours, Role::Pawn, role);
                },
                Move::Put { role: dropped, .. } => {
                    lemma_minus_one(ours, dropped, role);
                },
                _ => {},
            }
        }
    }

    /// Plays a move that `playable` admits: the pockets change first, then the
    /// standard chess engine moves the pieces and hands the turn over.
    pub fn play_unchecked(&mut self, m: &Move)
        requires
            old(self).wf(),
            old(self).playable(*m),
        ensures
            *final(self) == old(self).after(*m),
            final(self).base() == played(old(self).base(), *m),
            final(self).spec_pockets() == old(self).pockets_after(*m),
            final(self).spec_turn() == old(self).spec_turn().opposite(),
            final(self).wf(),
            final(self).piece_total() == old(self).piece_total(),
            !old(self).spec_pockets().holds_king() && !old(self).takes_king(*m)
                ==> !final(self).spec_pockets().holds_king(),
            final(self).spec_pockets().side(old(self).spec_turn().opposite())
                == old(self).spec_pockets().side(old(self).spec_turn().opposite()),
            forall|role: Role|
                final(self).spec_pockets().side(old(self).spec_turn()).of(role) == old(
                    self,
                ).our_side().of(role) + #[trigger] old(self).pocket_change(*m, role),
            *m matches Move::Put { role, to } ==> {
                &&& final(self).spec_pockets().side(old(self).spec_turn()).of(role) + 1 == old(
                    self,
                ).our_side().of(role)
                &&& final(self).board() == old(self).board().insert(
                    to,
                    Piece { color: old(self).spec_turn(), role },
                )
                &&& final(self).promoted() == old(self).promoted().remove(to)
            },
            *m matches Move::Normal { capture: Some(captured), to, .. } ==> {
                let credited = if old(self).promoted().contains(to) {
                    Role::Pawn
                } else {
                    captured
                };
                final(self).spec_pockets().side(old(self).spec_turn()).of(credited) == old(
                    self,
                ).our_side().of(credited) + 1
            },
            *m is EnPassant ==> final(self).spec_pockets().side(old(self).spec_turn()).pawns
                == old(self).our_side().pawns + 1,
            *m matches Move::Normal { role, from, to, promotion, .. } ==> {
                &&& final(self).board() == old(self).board().remove(from).insert(
                    to,
                    rules::arrived(old(self).spec_turn(), role, promotion),
                )
                &&& final(self).promoted() == if old(self).promoted().contains(from)
                    || promotion is Some {
                    old(self).promoted().remove(from).insert(to)
                } else {
                    old(self).promoted().remove(from).remove(to)
                }
            },
    {
        let turn = self.turn();
        proof {
            lemma_occupancy(board_of(self.chess));
            assert forall|role: Role| old(self).our_side().of(role) < u8::MAX by {
                assert(old(self).our_side().total() <= 64);
            }
            old(self).lemma_pockets_after(*m);
        }
        match *m {
            Move::Normal { role, from, capture, to, promotion } => {
                match capture {
                    Some(captured) => {
                        let promoted = rules::board_promoted(rules::chess_board(&self.chess));
                        let credited = if contains(promoted, to) {
                            Role::Pawn
                        } else {
                            captured
                        };
                        self.pockets.put_in(turn, credited);
                    },
                    None => {},
                }
                rules::chess_play_normal(&mut self.chess, role, from, capture, to, promotion);
            },
            Move::EnPassant { from, to } => {
                self.pockets.put_in(turn, Role::Pawn);
                rules::chess_play_en_passant(&mut self.chess, from, to);
            },
            Move::Castle { king, rook } => {
                rules::chess_play_castle(&mut self.chess, king, rook);
            },
            Move::Put { role, to } => {
                self.pockets.take_out(turn, role);
                let ghost before = board_of(self.chess);
                rules::chess_play_put(&mut self.chess, role, to);
                proof {
                    let after = board_of(self.chess);
                    lemma_tally_one_new(
                        |sq: u8| pieces(before).contains_key(sq),
                        |sq: u8| pieces(after).contains_key(sq),
                        to,
                        64,
                    );
                }
            },
        }
    }

    /// Whether `m` is among the legal moves.
    pub fn is_legal(&self, m: &Move) -> (r: bool)
        ensures
            r == self.legal_moves_spec().contains(*m),
            r ==> self.playable(*m),
    {
        let moves = self.legal_moves();
        let mut i: usize = 0;
        while i < moves.len()
            invariant
                i <= moves@.len(),
                moves@ == self.legal_moves_spec(),
                forall|j: int| 0 <= j < i ==> moves@[j] != *m,
                forall|j: int| 0 <= j < moves@.len() ==> self.playable(#[trigger] moves@[j]),
            decreases moves@.len() - i,
        {
            if moves[i].same(m) {
                return true;
            }
            i = i + 1;
        }
        false
    }

    /// Plays `m` if it is legal, and hands the position back unchanged if it is not.
    pub fn play(self, m: &Move) -> (r: Result<Bughouse, PlayError>)
        requires
            self.wf(),
        ensures
            match r {
                Ok(next) => self.legal_moves_spec().contains(*m) && next == self.after(*m)
                    && next.wf(),
                Err(refused) => !self.legal_moves_spec().contains(*m) && refused.position == self
                    && refused.m == *m,
            },
    {
        if self.is_legal(m) {
            let mut next = self;
            next.play_unchecked(m);
            Ok(next)
        } else {
            Err(PlayError { m: *m, position: self })
        }
    }

    /// Adds `material` to the pockets, side by side and role by role. Kings are no
    /// material for a pocket.
    pub fn add_material(self, material: Pockets) -> (r: Bughouse)
        requires
            !material.holds_king(),
            self.spec_pockets().white.can_add(material.white),
            self.spec_pockets().black.can_add(material.black),
        ensures
            r.base() == self.base(),
            r.spec_pockets().white == self.spec_pockets().white.sum(material.white),
            r.spec_pockets().black == self.spec_pockets().black.sum(material.black),
            r.piece_total() == self.piece_total() + material.total(),
            self.piece_total() + material.total() <= 64 ==> r.wf(),
            !self.spec_pockets().holds_king() ==> !r.spec_pockets().holds_king(),
    {
        let mut next = self;
        next.pockets = next.pockets.add(material);
        next
    }

    /// Sets up a position. The objections of the standard chess engine are joined by
    /// those of the variant: more than 64 pieces on the board and in the pockets, and
    /// a king in a pocket. The engine's objection to material that standard chess
    /// cannot reach is dropped where board and pockets hold at most 64 pieces and at
    /// most 32 pawns, since drops bring such material about. The setup is refused if
    /// an objection is left.
    pub fn from_setup(setup: &Setup, mode: CastlingMode) -> (r: Result<
        Bughouse,
        BughousePositionError,
    >)
        requires
            setup.wf(),
        ensures
            refusal(*setup, mode) != 0 ==> r is Err && r->Err_0.kinds().bits == refusal(
                *setup,
                mode,
            ),
            refusal(*setup, mode) == 0 ==> {
                &&& r is Ok
                &&& r->Ok_0.base() == engine_position(*setup, mode)
                &&& r->Ok_0.spec_pockets() == setup.pockets_or_empty()
            },
            r is Ok ==> {
                &&& r->Ok_0.wf()
                &&& !r->Ok_0.spec_pockets().holds_king()
                &&& r->Ok_0.pawn_total() == setup.pawn_total()
                &&& setup.pawn_total() <= 32 ==> r->Ok_0.pawn_total() <= 32
                &&& r->Ok_0.board() == setup.board()
                &&& r->Ok_0.promoted() == setup.promoted()
                &&& r->Ok_0.spec_turn() == setup.turn
                &&& halfmoves_of(r->Ok_0.base()) == setup.halfmoves
                &&& fullmoves_of(r->Ok_0.base()) == setup.fullmoves
            },
    {
        let mut board = rules::board_empty();
        let mut i: usize = 0;
        while i < setup.pieces.len()
            invariant
                setup.wf(),
                i <= setup.pieces@.len(),
                pieces(board) == placement(setup.pieces@, i as nat),
                promoted_in(board) == promotions(setup.pieces@, i as nat),
            decreases setup.pieces@.len() - i,
        {
            let placed = setup.pieces[i];
            rules::board_set_piece(&mut board, placed.square, placed.piece, placed.promoted);
            i = i + 1;
        }
        let occupied_squares = rules::board_occupied(&board);
        let pawn_squares = rules::board_pawns(&board);
        let occupied = count_squares(occupied_squares);
        let pawns = count_squares(pawn_squares);
        let ghost built = board;
        proof {
            lemma_tally_agree(
                |sq: u8| member(occupied_squares, sq),
                |sq: u8| pieces(built).contains_key(sq),
                64,
            );
            lemma_tally_agree(|sq: u8| member(pawn_squares, sq), |sq: u8| pawn_on(built, sq), 64);
            lemma_occupancy(built);
            lemma_tally_agree(
                |sq: u8| pawn_on(built, sq),
                |sq: u8| setup.board().contains_key(sq) && setup.board()[sq].role == Role::Pawn,
                64,
            );
        }
        let judged = rules::chess_from_setup(
            board,
            setup.turn,
            setup.castling_rights,
            setup.ep_square,
            setup.halfmoves,
            setup.fullmoves,
            mode,
        );
        let (position, engine_bits): (Option<Chess>, u32) = match judged {
            Ok(chess) => (Some(chess), 0u32),
            Err(refused) => {
                let kinds = rules::refusal_kinds(&refused);
                (rules::ignore_impossible_material(refused), kinds.bits)
            },
        };
        let pockets = match setup.pockets {
            Some(pockets) => pockets,
            None => Pockets::new(),
        };
        let held = pockets.count();
        let mut objected: u32 = 0;
        if held + occupied > 64 {
            objected = objected | VARIANT;
        }
        if pockets.white.kings > 0 || pockets.black.kings > 0 {
            objected = objected | TOO_MANY_KINGS;
        }
        proof {
            assert(0u32 | 0x200u32 == 0x200u32 && 0u32 | 0x004u32 == 0x004u32 && 0x200u32 | 0x004u32
                == 0x204u32 && 0u32 | 0u32 == 0u32 && 0x200u32 | 0u32 == 0x200u32) by (bit_vector);
            assert(objected == objections(pockets, occupancy(setup.board())));
        }
        let mut errors: u32 = engine_bits | objected;
        let pocket_pawns: usize = pockets.white.pawns as usize + pockets.black.pawns as usize;
        if held + occupied <= 64 && pocket_pawns + pawns <= 32 {
            errors = errors & !IMPOSSIBLE_MATERIAL;
        }
        assert(errors == refusal(*setup, mode));
        if errors != 0 {
            return Err(BughousePositionError::new(PositionErrorKinds { bits: errors }));
        }
        proof {
            assert(engine_bits & !0x100u32 == 0 && objected == 0) by (bit_vector)
                requires
                    (engine_bits | objected) & !0x100u32 == 0 || engine_bits | objected == 0,
                    objected == 0u32 || objected == 0x200u32 || objected == 0x004u32 || objected
                        == 0x204u32,
            ;
            lemma_occupancy(board_of(engine_position(*setup, mode)));
        }
        Ok(Bughouse { chess: position.unwrap(), pockets })
    }
}

/// The engine's set of occupied squares counts the squares that hold a piece.
pub proof fn lemma_occupancy(board: Board)
    ensures
        occupied_count(board) <= 64,
        occupied_count(board) == occupancy(pieces(board)),
{
    lemma_tally_bound(|sq: u8| pieces(board).contains_key(sq), 64);
    let placed = pieces(board);
    lemma_tally_agree(|sq: u8| pieces(board).contains_key(sq), |sq: u8| placed.contains_key(sq), 64);
}

} // verus!
