//! The standard chess engine behind the variant: what this library believes of it.
//!
//! Every function here makes one call into the engine and converts what goes in and
//! what comes out. Nothing in this file is proved; the contracts say what the
//! engine's source shows. The engine is built with its `variant` feature, so that
//! its move lists have the room that it reserves for positions with dropped pieces.

use vstd::prelude::*;
use crate::bitboard::{member, square_bit, tally};
use crate::error::{PositionErrorKinds, IMPOSSIBLE_MATERIAL};
use crate::types::{file_of, rank_of, CastlingMode, CastlingSide, Color, Move, Piece, Role};
use shakmaty::{Board, Chess, FromSetup, Position, PositionError, Setup, Square};
use shakmaty::Move as M;
use shakmaty::Role as R;

verus! {

#[verifier::external_type_specification]
#[verifier::external_body]
pub struct ExBoard(Board);

#[verifier::external_type_specification]
#[verifier::external_body]
pub struct ExChess(Chess);

#[verifier::external_type_specification]
#[verifier::external_body]
#[verifier::reject_recursive_types(P)]
pub struct ExPositionError<P>(PositionError<P>);

/// The pieces on a board, by square.
pub uninterp spec fn pieces(board: Board) -> Map<u8, Piece>;

/// The squares of a board whose piece is marked as a promoted pawn.
pub uninterp spec fn promoted_in(board: Board) -> Set<u8>;

/// The board of a standard position.
pub uninterp spec fn board_of(chess: Chess) -> Board;

/// The side to move in a standard position.
pub uninterp spec fn turn_of(chess: Chess) -> Color;

/// The rooks with which a side may still castle, as a set of squares.
pub uninterp spec fn castling_rights_of(chess: Chess) -> u64;

/// The square on which a pawn may be captured en passant, if a capture there is legal.
pub uninterp spec fn ep_square_of(chess: Chess) -> Option<u8>;

/// Half-moves since the last capture or pawn move.
pub uninterp spec fn halfmoves_of(chess: Chess) -> u32;

/// The number of the current move.
pub uninterp spec fn fullmoves_of(chess: Chess) -> u32;

/// The pieces that give check to the side to move, as a set of squares.
pub uninterp spec fn checkers_of(chess: Chess) -> u64;

/// The legal moves of standard chess, in the engine's order.
pub uninterp spec fn legal_moves_of(chess: Chess) -> Seq<Move>;

/// The legal moves of standard chess by which a piece of kind `role` reaches `to`, castling excluded.
pub uninterp spec fn san_candidates_of(chess: Chess, role: Role, to: u8) -> Seq<Move>;

/// The legal castling moves to one wing.
pub uninterp spec fn castling_moves_of(chess: Chess, side: CastlingSide) -> Seq<Move>;

/// The legal en passant captures.
pub uninterp spec fn en_passant_moves_of(chess: Chess) -> Seq<Move>;

/// The standard position after a move.
pub uninterp spec fn played(chess: Chess, m: Move) -> Chess;

/// The objections that come with a refusal of the engine, one bit each.
pub uninterp spec fn kinds_of(refusal: PositionError<Chess>) -> u32;

/// The position that the engine built from the setup that it refused.
pub uninterp spec fn position_of(refusal: PositionError<Chess>) -> Chess;

/// What the engine makes of a setup: a standard position, or a refusal.
pub uninterp spec fn validated(
    pieces: Map<u8, Piece>,
    promoted: Set<u8>,
    turn: Color,
    castling_rights: u64,
    ep_square: Option<u8>,
    halfmoves: u32,
    fullmoves: u32,
    mode: CastlingMode,
) -> Result<Chess, PositionError<Chess>>;

/// Whether a standard position has the board, the side to move and the counters given.
pub open spec fn keeps_setup(
    chess: Chess,
    board: Board,
    turn: Color,
    halfmoves: u32,
    fullmoves: u32,
) -> bool {
    &&& board_of(chess) == board
    &&& turn_of(chess) == turn
    &&& halfmoves_of(chess) == halfmoves
    &&& fullmoves_of(chess) == fullmoves
}

/// The number of occupied squares.
pub open spec fn occupied_count(board: Board) -> nat {
    tally(|sq: u8| pieces(board).contains_key(sq), 64)
}

/// Whether a pawn stands on `sq`.
pub open spec fn pawn_on(board: Board, sq: u8) -> bool {
    pieces(board).contains_key(sq) && pieces(board)[sq].role == Role::Pawn
}

/// The number of pawns on the board.
pub open spec fn pawn_count(board: Board) -> nat {
    tally(|sq: u8| pawn_on(board, sq), 64)
}

/// Whether a king of `color` that is no promoted pawn stands on `sq`.
pub open spec fn king_on(board: Board, color: Color, sq: u8) -> bool {
    &&& sq < 64
    &&& pieces(board).contains_key(sq)
    &&& pieces(board)[sq] == (Piece { color, role: Role::King })
    &&& !promoted_in(board).contains(sq)
}

/// Whether `sq` holds the one such king of `color`.
pub open spec fn sole_king(board: Board, color: Color, sq: u8) -> bool {
    king_on(board, color, sq) && forall|other: u8| king_on(board, color, other) ==> other == sq
}

/// The square of the king of `color`, where the side has exactly one.
pub open spec fn king_square(board: Board, color: Color) -> Option<u8> {
    if exists|sq: u8| sole_king(board, color, sq) {
        Some(choose|sq: u8| sole_king(board, color, sq))
    } else {
        None
    }
}

/// Whether the side to move has its king, which the engine's move generation takes for granted.
pub open spec fn has_king(chess: Chess) -> bool {
    king_square(board_of(chess), turn_of(chess)) is Some
}

/// Whether `x` lies strictly between 0 and `d`.
pub open spec fn inside(x: int, d: int) -> bool {
    (0 < x < d) || (d < x < 0)
}

/// Whether `sq` lies strictly between `a` and `b` on a common rank, file or diagonal.
pub open spec fn strictly_between(a: u8, sq: u8, b: u8) -> bool {
    let dx = file_of(b) - file_of(a);
    let dy = rank_of(b) - rank_of(a);
    let sx = file_of(sq) - file_of(a);
    let sy = rank_of(sq) - rank_of(a);
    if dx == 0 {
        sx == 0 && inside(sy, dy)
    } else if dy == 0 {
        sy == 0 && inside(sx, dx)
    } else if dx == dy {
        sx == sy && inside(sx, dx)
    } else if dx == -dy {
        sx == -sy && inside(sx, dx)
    } else {
        false
    }
}

/// The piece that stands on `sq` at the start of a game.
pub open spec fn initial_piece(sq: u8) -> Option<Piece> {
    let file = sq % 8;
    let officer = if file == 0 || file == 7 {
        Role::Rook
    } else if file == 1 || file == 6 {
        Role::Knight
    } else if file == 2 || file == 5 {
        Role::Bishop
    } else if file == 3 {
        Role::Queen
    } else {
        Role::King
    };
    if sq < 8 {
        Some(Piece { color: Color::White, role: officer })
    } else if sq < 16 {
        Some(Piece { color: Color::White, role: Role::Pawn })
    } else if sq < 48 {
        None
    } else if sq < 56 {
        Some(Piece { color: Color::Black, role: Role::Pawn })
    } else if sq < 64 {
        Some(Piece { color: Color::Black, role: officer })
    } else {
        None
    }
}

/// The pieces at the start of a game.
pub open spec fn initial_pieces() -> Map<u8, Piece> {
    Map::new(|sq: u8| initial_piece(sq) is Some, |sq: u8| initial_piece(sq).unwrap())
}

/// The pieces of a board on which nothing stands.
pub open spec fn no_pieces() -> Map<u8, Piece> {
    Map::empty()
}

/// `Board::empty`: a board without pieces.
#[verifier::external_body]
pub(crate) fn board_empty() -> (board: Board)
    ensures
        pieces(board) == no_pieces(),
        promoted_in(board) == Set::<u8>::empty(),
{
    Board::empty()
}

/// `Board::set_piece_at`: the piece takes the square, whatever stood there, and the
/// square is marked as promoted or cleared of the mark.
#[verifier::external_body]
pub(crate) fn board_set_piece(board: &mut Board, sq: u8, piece: Piece, promoted: bool)
    requires
        sq < 64,
    ensures
        pieces(*final(board)) == pieces(*old(board)).insert(sq, piece),
        promoted_in(*final(board)) == if promoted {
            promoted_in(*old(board)).insert(sq)
        } else {
            promoted_in(*old(board)).remove(sq)
        },
{
    let color = shakmaty::Color::from_white(piece.color.is_white());
    let role = R::try_from(piece.role.number()).unwrap();
    board.set_piece_at(Square::new(sq.into()), shakmaty::Piece { color, role }, promoted);
}

/// `Board::piece_at`: the piece on a square.
#[verifier::external_body]
pub(crate) fn board_piece_at(board: &Board, sq: u8) -> (r: Option<Piece>)
    requires
        sq < 64,
    ensures
        r == if pieces(*board).contains_key(sq) {
            Some(pieces(*board)[sq])
        } else {
            None
        },
{
    board.piece_at(Square::new(sq.into())).map(|p| Piece::numbered(p.color.is_white(), p.role.into()))
}

/// `Board::occupied`: the occupied squares.
#[verifier::external_body]
pub(crate) fn board_occupied(board: &Board) -> (r: u64)
    ensures
        forall|sq: u8| sq < 64 ==> (#[trigger] member(r, sq) <==> pieces(*board).contains_key(sq)),
{
    board.occupied().0
}

/// `Board::pawns`: the squares on which pawns stand.
#[verifier::external_body]
pub(crate) fn board_pawns(board: &Board) -> (r: u64)
    ensures
        forall|sq: u8| sq < 64 ==> (#[trigger] member(r, sq) <==> pawn_on(*board, sq)),
{
    board.pawns().0
}

/// `Board::promoted`: the squares marked as promoted.
#[verifier::external_body]
pub(crate) fn board_promoted(board: &Board) -> (r: u64)
    ensures
        forall|sq: u8| sq < 64 ==> (#[trigger] member(r, sq) <==> promoted_in(*board).contains(sq)),
{
    board.promoted().0
}

/// `Board::king_of`: the square of the one king of a side that is no promoted pawn.
#[verifier::external_body]
pub(crate) fn board_king_of(board: &Board, color: Color) -> (r: Option<u8>)
    ensures
        r == king_square(*board, color),
        r is Some ==> sole_king(*board, color, r.unwrap()),
{
    board.king_of(shakmaty::Color::from_white(color.is_white())).map(u8::from)
}

/// `Chess::from_setup`: the engine builds a position with the board, the side to move
/// and the counters of the setup. It hands the position out if it has no objection,
/// and a refusal with at least one objection and that position if it has.
#[verifier::external_body]
pub(crate) fn chess_from_setup(
    board: Board,
    turn: Color,
    castling_rights: u64,
    ep_square: Option<u8>,
    halfmoves: u32,
    fullmoves: u32,
    mode: CastlingMode,
) -> (r: Result<Chess, PositionError<Chess>>)
    requires
        ep_square is Some ==> ep_square.unwrap() < 64,
        fullmoves >= 1,
    ensures
        r == validated(
            pieces(board),
            promoted_in(board),
            turn,
            castling_rights,
            ep_square,
            halfmoves,
            fullmoves,
            mode,
        ),
        match r {
            Ok(chess) => keeps_setup(chess, board, turn, halfmoves, fullmoves),
            Err(refusal) => kinds_of(refusal) != 0 && keeps_setup(
                position_of(refusal),
                board,
                turn,
                halfmoves,
                fullmoves,
            ),
        },
{
    let fen = shakmaty::fen::Fen {
        board,
        pockets: None,
        turn: shakmaty::Color::from_white(turn.is_white()),
        castling_rights: shakmaty::Bitboard(castling_rights),
        ep_square: ep_square.map(|sq| Square::new(sq.into())),
        remaining_checks: None,
        halfmoves,
        fullmoves: std::num::NonZeroU32::new(fullmoves).unwrap(),
    };
    Chess::from_setup(&fen, shakmaty::CastlingMode::from_chess960(mode.is_chess960()))
}

/// `PositionError::kinds`: the objections of a refusal.
#[verifier::external_body]
pub(crate) fn refusal_kinds(refusal: &PositionError<Chess>) -> (r: PositionErrorKinds)
    ensures
        r.bits == kinds_of(*refusal),
{
    PositionErrorKinds { bits: refusal.kinds().bits() }
}

/// `PositionError::ignore_impossible_material`: the position that was refused, if
/// material that standard chess cannot reach was the only objection.
#[verifier::external_body]
pub(crate) fn ignore_impossible_material(refusal: PositionError<Chess>) -> (r: Option<Chess>)
    ensures
        r is Some <==> kinds_of(refusal) & !IMPOSSIBLE_MATERIAL == 0,
        r is Some ==> r.unwrap() == position_of(refusal),
{
    refusal.ignore_impossible_material().ok()
}

/// `Chess::default`: the position at the start of a game.
#[verifier::external_body]
pub(crate) fn chess_initial() -> (chess: Chess)
    ensures
        pieces(board_of(chess)) == initial_pieces(),
        promoted_in(board_of(chess)) == Set::<u8>::empty(),
        turn_of(chess) == Color::White,
        castling_rights_of(chess) == 0x8100_0000_0000_0081u64,
        ep_square_of(chess) is None,
        halfmoves_of(chess) == 0,
        fullmoves_of(chess) == 1,
{
    Chess::default()
}

/// `Clone::clone` of a standard position: a copy.
#[verifier::external_body]
pub(crate) fn chess_clone(chess: &Chess) -> (r: Chess)
    ensures
        r == *chess,
{
    chess.clone()
}

/// `Setup::board` of a standard position.
#[verifier::external_body]
pub(crate) fn chess_board(chess: &Chess) -> (r: &Board)
    ensures
        *r == board_of(*chess),
{
    chess.board()
}

/// `Setup::turn` of a standard position.
#[verifier::external_body]
pub(crate) fn chess_turn(chess: &Chess) -> (r: Color)
    ensures
        r == turn_of(*chess),
{
    Color::from_white(chess.turn().is_white())
}

/// `Setup::castling_rights` of a standard position.
#[verifier::external_body]
pub(crate) fn chess_castling_rights(chess: &Chess) -> (r: u64)
    ensures
        r == castling_rights_of(*chess),
{
    chess.castling_rights().0
}

/// `Setup::ep_square` of a standard position.
#[verifier::external_body]
pub(crate) fn chess_ep_square(chess: &Chess) -> (r: Option<u8>)
    requires
        has_king(*chess),
    ensures
        r == ep_square_of(*chess),
        r is Some ==> r.unwrap() < 64,
{
    chess.ep_square().map(u8::from)
}

/// `Setup::halfmoves` of a standard position.
#[verifier::external_body]
pub(crate) fn chess_halfmoves(chess: &Chess) -> (r: u32)
    ensures
        r == halfmoves_of(*chess),
{
    chess.halfmoves()
}

/// `Setup::fullmoves` of a standard position.
#[verifier::external_body]
pub(crate) fn chess_fullmoves(chess: &Chess) -> (r: u32)
    ensures
        r == fullmoves_of(*chess),
        r >= 1,
{
    chess.fullmoves().get()
}

/// `Position::checkers` of a standard position: the pieces that attack the king of
/// the side to move. An attack along a line passes over empty squares only, so where
/// one piece gives check, no piece stands strictly between it and the king.
#[verifier::external_body]
pub(crate) fn chess_checkers(chess: &Chess) -> (r: u64)
    ensures
        r == checkers_of(*chess),
        forall|checker: u8, king: u8, sq: u8|
            checker < 64 && sq < 64 && r == square_bit(checker) && king_square(
                board_of(*chess),
                turn_of(*chess),
            ) == Some(king) && #[trigger] strictly_between(checker, sq, king) ==> !pieces(
                board_of(*chess),
            ).contains_key(sq),
{
    chess.checkers().0
}

/// `Position::legal_moves` of a standard position: moves on the board, none of them a drop.
#[verifier::external_body]
pub(crate) fn chess_legal_moves(chess: &Chess) -> (r: Vec<Move>)
    requires
        has_king(*chess),
    ensures
        r@ == legal_moves_of(*chess),
        forall|i: int| 0 <= i < r@.len() ==> (#[trigger] r@[i]).wf() && !(r@[i] is Put),
{
    chess.legal_moves().iter().map(|m| match *m {
        M::Normal { role, from, capture, to, promotion } => Move::normal(
            role.into(), from.into(), capture.map(u8::from), to.into(), promotion.map(u8::from)),
        M::EnPassant { from, to } => Move::en_passant(from.into(), to.into()),
        M::Castle { king, rook } => Move::castle(king.into(), rook.into()),
        M::Put { role, to } => Move::put(role.into(), to.into()),
    }).collect()
}

/// `Position::san_candidates` of a standard position: moves on the board, none of them a drop.
#[verifier::external_body]
pub(crate) fn chess_san_candidates(chess: &Chess, role: Role, to: u8) -> (r: Vec<Move>)
    requires
        has_king(*chess),
        to < 64,
    ensures
        r@ == san_candidates_of(*chess, role, to),
        forall|i: int| 0 <= i < r@.len() ==> (#[trigger] r@[i]).wf() && !(r@[i] is Put),
{
    let role = R::try_from(role.number()).unwrap();
    chess.san_candidates(role, Square::new(to.into())).iter().map(|m| match *m {
        M::Normal { role, from, capture, to, promotion } => Move::normal(
            role.into(), from.into(), capture.map(u8::from), to.into(), promotion.map(u8::from)),
        M::EnPassant { from, to } => Move::en_passant(from.into(), to.into()),
        M::Castle { king, rook } => Move::castle(king.into(), rook.into()),
        M::Put { role, to } => Move::put(role.into(), to.into()),
    }).collect()
}

/// `Position::castling_moves` of a standard position.
#[verifier::external_body]
pub(crate) fn chess_castling_moves(chess: &Chess, side: CastlingSide) -> (r: Vec<Move>)
    requires
        has_king(*chess),
    ensures
        r@ == castling_moves_of(*chess, side),
        forall|i: int| 0 <= i < r@.len() ==> (#[trigger] r@[i]).wf() && !(r@[i] is Put),
{
    let side = shakmaty::CastlingSide::from_queen_side(side.is_queen_side());
    chess.castling_moves(side).iter().map(|m| match *m {
        M::Normal { role, from, capture, to, promotion } => Move::normal(
            role.into(), from.into(), capture.map(u8::from), to.into(), promotion.map(u8::from)),
        M::EnPassant { from, to } => Move::en_passant(from.into(), to.into()),
        M::Castle { king, rook } => Move::castle(king.into(), rook.into()),
        M::Put { role, to } => Move::put(role.into(), to.into()),
    }).collect()
}

/// `Position::en_passant_moves` of a standard position.
#[verifier::external_body]
pub(crate) fn chess_en_passant_moves(chess: &Chess) -> (r: Vec<Move>)
    requires
        has_king(*chess),
    ensures
        r@ == en_passant_moves_of(*chess),
        forall|i: int| 0 <= i < r@.len() ==> (#[trigger] r@[i]).wf() && !(r@[i] is Put),
{
    chess.en_passant_moves().iter().map(|m| match *m {
        M::Normal { role, from, capture, to, promotion } => Move::normal(
            role.into(), from.into(), capture.map(u8::from), to.into(), promotion.map(u8::from)),
        M::EnPassant { from, to } => Move::en_passant(from.into(), to.into()),
        M::Castle { king, rook } => Move::castle(king.into(), rook.into()),
        M::Put { role, to } => Move::put(role.into(), to.into()),
    }).collect()
}

/// The piece that stands on the target square after a normal move: the piece that
/// moved, or the piece that the pawn was promoted to.
pub open spec fn arrived(color: Color, role: Role, promotion: Option<Role>) -> Piece {
    Piece {
        color,
        role: match promotion {
            Some(promoted) => promoted,
            None => role,
        },
    }
}

/// `Position::play_unchecked` with a legal normal move: the square that the piece
/// left is empty, the target square holds the piece or what it was promoted to, and
/// carries the mark of a promoted pawn if the piece carried it or was promoted now.
/// The other side is to move. A capture leaves one occupied square less, any other
/// move as many as before.
#[verifier::external_body]
pub(crate) fn chess_play_normal(
    chess: &mut Chess,
    role: Role,
    from: u8,
    capture: Option<Role>,
    to: u8,
    promotion: Option<Role>,
)
    requires
        from < 64,
        to < 64,
        has_king(*old(chess)),
        legal_moves_of(*old(chess)).contains(Move::Normal { role, from, capture, to, promotion }),
    ensures
        *final(chess) == played(*old(chess), Move::Normal { role, from, capture, to, promotion }),
        turn_of(*final(chess)) == turn_of(*old(chess)).opposite(),
        pieces(board_of(*final(chess))) == pieces(board_of(*old(chess))).remove(from).insert(
            to,
            arrived(turn_of(*old(chess)), role, promotion),
        ),
        promoted_in(board_of(*final(chess))) == if promoted_in(board_of(*old(chess))).contains(
            from,
        ) || promotion is Some {
            promoted_in(board_of(*old(chess))).remove(from).insert(to)
        } else {
            promoted_in(board_of(*old(chess))).remove(from).remove(to)
        },
        occupied_count(board_of(*final(chess))) + (if capture is Some {
            1nat
        } else {
            0nat
        }) == occupied_count(board_of(*old(chess))),
{
    let r = |x: Role| R::try_from(x.number()).unwrap();
    chess.play_unchecked(&M::Normal {
        role: r(role),
        from: Square::new(from.into()),
        capture: capture.map(r),
        to: Square::new(to.into()),
        promotion: promotion.map(r),
    });
}

/// `Position::play_unchecked` with a legal en passant capture: the other side is to
/// move, and one occupied square less is left.
#[verifier::external_body]
pub(crate) fn chess_play_en_passant(chess: &mut Chess, from: u8, to: u8)
    requires
        from < 64,
        to < 64,
        has_king(*old(chess)),
        legal_moves_of(*old(chess)).contains(Move::EnPassant { from, to }),
    ensures
        *final(chess) == played(*old(chess), Move::EnPassant { from, to }),
        turn_of(*final(chess)) == turn_of(*old(chess)).opposite(),
        occupied_count(board_of(*final(chess))) + 1 == occupied_count(board_of(*old(chess))),
{
    chess.play_unchecked(&M::EnPassant { from: Square::new(from.into()), to: Square::new(to.into()) });
}

/// `Position::play_unchecked` with a legal castling move: the other side is to move,
/// and as many squares are occupied as before.
#[verifier::external_body]
pub(crate) fn chess_play_castle(chess: &mut Chess, king: u8, rook: u8)
    requires
        king < 64,
        rook < 64,
        has_king(*old(chess)),
        legal_moves_of(*old(chess)).contains(Move::Castle { king, rook }),
    ensures
        *final(chess) == played(*old(chess), Move::Castle { king, rook }),
        turn_of(*final(chess)) == turn_of(*old(chess)).opposite(),
        occupied_count(board_of(*final(chess))) == occupied_count(board_of(*old(chess))),
{
    chess.play_unchecked(&M::Castle { king: Square::new(king.into()), rook: Square::new(rook.into()) });
}

/// `Position::play_unchecked` with the drop of a piece other than a king on an empty
/// square: the piece of the side that moved takes the square, without the mark of a
/// promoted pawn, and the other side is to move.
#[verifier::external_body]
pub(crate) fn chess_play_put(chess: &mut Chess, role: Role, to: u8)
    requires
        to < 64,
        role != Role::King,
        !pieces(board_of(*old(chess))).contains_key(to),
    ensures
        *final(chess) == played(*old(chess), Move::Put { role, to }),
        turn_of(*final(chess)) == turn_of(*old(chess)).opposite(),
        pieces(board_of(*final(chess))) == pieces(board_of(*old(chess))).insert(
            to,
            Piece { color: turn_of(*old(chess)), role },
        ),
        promoted_in(board_of(*final(chess))) == promoted_in(board_of(*old(chess))).remove(to),
{
    let role = R::try_from(role.number()).unwrap();
    chess.play_unchecked(&M::Put { role, to: Square::new(to.into()) });
}

/// `attacks::between`: the squares strictly between two squares on a common rank,
/// file or diagonal, and none where the two have no such line in common.
#[verifier::external_body]
pub(crate) fn between(a: u8, b: u8) -> (r: u64)
    requires
        a < 64,
        b < 64,
    ensures
        forall|sq: u8| sq < 64 ==> (#[trigger] member(r, sq) <==> strictly_between(a, sq, b)),
{
    shakmaty::attacks::between(Square::new(a.into()), Square::new(b.into())).0
}

} // verus!
