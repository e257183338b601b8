use bughouse::board::Bughouse;
use bughouse::pocket::{PocketSide, Pockets};
use bughouse::setup::{Placed, Setup};
use bughouse::types::{CastlingMode, CastlingSide, Color, Move, Outcome, Piece, Role};

fn piece(color: Color, role: Role) -> Piece {
    Piece { color, role }
}

fn side(pawns: u8, knights: u8, bishops: u8, rooks: u8, queens: u8, kings: u8) -> PocketSide {
    PocketSide { pawns, knights, bishops, rooks, queens, kings }
}

fn nothing() -> PocketSide {
    side(0, 0, 0, 0, 0, 0)
}

fn position(setup: &Setup) -> Bughouse {
    match Bughouse::from_setup(setup, CastlingMode::Standard) {
        Ok(position) => position,
        Err(e) => panic!("setup refused: {:#x}", e.kinds().bits),
    }
}

/// White king h1, black rooks g8 and h8, black king a8: check along the h-file, and
/// the king cannot move.
fn file_check(pocket: PocketSide) -> Bughouse {
    let mut setup = Setup::empty();
    setup.put(7, piece(Color::White, Role::King));
    setup.put(56, piece(Color::Black, Role::King));
    setup.put(62, piece(Color::Black, Role::Rook));
    setup.put(63, piece(Color::Black, Role::Rook));
    setup.pockets = Some(Pockets { white: pocket, black: nothing() });
    position(&setup)
}

fn put(role: Role, to: u8) -> Move {
    Move::Put { role, to }
}

#[test]
fn knight_in_pocket_under_check_along_a_file() {
    let checked = file_check(side(0, 1, 0, 0, 0, 0));
    assert_eq!(checked.checkers(), 1u64 << 63);
    assert_eq!(
        checked.legal_moves(),
        vec![
            put(Role::Knight, 15),
            put(Role::Knight, 23),
            put(Role::Knight, 31),
            put(Role::Knight, 39),
            put(Role::Knight, 47),
            put(Role::Knight, 55),
        ]
    );
}

#[test]
fn knight_in_pocket_under_check_with_king_moves() {
    let mut setup = Setup::empty();
    setup.put(4, piece(Color::White, Role::King));
    setup.put(56, piece(Color::Black, Role::King));
    setup.put(60, piece(Color::Black, Role::Rook));
    setup.pockets = Some(Pockets { white: side(0, 1, 0, 0, 0, 0), black: nothing() });
    let checked = position(&setup);
    let moves = checked.legal_moves();
    let king = |to: u8| Move::Normal { role: Role::King, from: 4, capture: None, to, promotion: None };
    assert_eq!(moves.len(), 10);
    for to in [3u8, 5, 11, 13] {
        assert!(moves.contains(&king(to)));
    }
    for to in [12u8, 20, 28, 36, 44, 52] {
        assert!(moves.contains(&put(Role::Knight, to)));
    }
    assert_eq!(moves[4..].to_vec(), vec![
        put(Role::Knight, 12),
        put(Role::Knight, 20),
        put(Role::Knight, 28),
        put(Role::Knight, 36),
        put(Role::Knight, 44),
        put(Role::Knight, 52),
    ]);
}

#[test]
fn put_squares_under_single_check_lie_between_checker_and_king() {
    let checked = file_check(nothing());
    let expected: u64 = (1 << 15) | (1 << 23) | (1 << 31) | (1 << 39) | (1 << 47) | (1 << 55);
    assert_eq!(checked.legal_put_squares(), expected);
    assert!(checked.legal_moves().is_empty());
    assert_eq!(checked.outcome(), Some(Outcome::Decisive { winner: Color::Black }));
}

#[test]
fn put_squares_on_a_diagonal_and_on_a_rank() {
    let mut setup = Setup::empty();
    setup.put(0, piece(Color::White, Role::King));
    setup.put(58, piece(Color::Black, Role::King));
    setup.put(27, piece(Color::Black, Role::Bishop));
    let diagonal = position(&setup);
    assert_eq!(diagonal.legal_put_squares(), (1 << 9) | (1 << 18));
    let mut setup = Setup::empty();
    setup.put(0, piece(Color::White, Role::King));
    setup.put(58, piece(Color::Black, Role::King));
    setup.put(5, piece(Color::Black, Role::Queen));
    let rank = position(&setup);
    assert_eq!(rank.legal_put_squares(), (1 << 1) | (1 << 2) | (1 << 3) | (1 << 4));
}

#[test]
fn put_squares_without_check_are_the_empty_squares() {
    let start = Bughouse::default();
    assert_eq!(start.legal_put_squares(), 0x0000_ffff_ffff_0000);
    assert_eq!(start.legal_put_squares(), !start.occupied());
}

#[test]
fn no_put_square_under_a_knight_check_or_a_double_check() {
    let mut setup = Setup::empty();
    setup.put(4, piece(Color::White, Role::King));
    setup.put(56, piece(Color::Black, Role::King));
    setup.put(21, piece(Color::Black, Role::Knight));
    let knight = position(&setup);
    assert_eq!(knight.checkers(), 1 << 21);
    assert_eq!(knight.legal_put_squares(), 0);
    setup.put(60, piece(Color::Black, Role::Rook));
    setup.pockets = Some(Pockets { white: side(1, 1, 1, 1, 1, 0), black: nothing() });
    let double = position(&setup);
    assert_eq!(double.checkers(), (1 << 21) | (1 << 60));
    assert_eq!(double.legal_put_squares(), 0);
    for m in double.legal_moves() {
        assert!(!matches!(m, Move::Put { .. }));
    }
}

#[test]
fn pawn_drops_avoid_the_back_ranks() {
    let mut setup = Setup::empty();
    setup.put(4, piece(Color::White, Role::King));
    setup.put(60, piece(Color::Black, Role::King));
    setup.pockets = Some(Pockets { white: side(1, 0, 0, 0, 0, 0), black: nothing() });
    let open = position(&setup);
    let moves = open.legal_moves();
    let drops: Vec<u8> = moves
        .iter()
        .filter_map(|m| match m {
            Move::Put { role: Role::Pawn, to } => Some(*to),
            _ => None,
        })
        .collect();
    let expected: Vec<u8> = (8u8..56).collect();
    assert_eq!(drops, expected);
    for m in &moves {
        if let Move::Put { role, .. } = m {
            assert_eq!(*role, Role::Pawn);
        }
    }
    assert!(open.san_candidates(Role::Pawn, 3).is_empty());
    assert!(open.san_candidates(Role::Pawn, 59).is_empty());
    assert_eq!(open.san_candidates(Role::Pawn, 35), vec![put(Role::Pawn, 35)]);
    assert!(!open.is_legal(&put(Role::Pawn, 3)));
    assert!(open.is_legal(&put(Role::Pawn, 8)));
}

#[test]
fn drops_come_square_by_square_then_pawns() {
    let mut setup = Setup::empty();
    setup.put(4, piece(Color::White, Role::King));
    setup.put(60, piece(Color::Black, Role::King));
    setup.pockets = Some(Pockets { white: side(2, 0, 0, 1, 1, 0), black: side(0, 5, 5, 0, 0, 0) });
    let open = position(&setup);
    let moves = open.legal_moves();
    let base = 5;
    assert_eq!(moves.len(), base + 2 * 62 + 48);
    assert_eq!(moves[base], put(Role::Rook, 0));
    assert_eq!(moves[base + 1], put(Role::Queen, 0));
    assert_eq!(moves[base + 2], put(Role::Rook, 1));
    assert_eq!(moves[base + 7], put(Role::Queen, 3));
    assert_eq!(moves[base + 8], put(Role::Rook, 5));
    assert_eq!(moves[base + 2 * 62 - 1], put(Role::Queen, 63));
    assert_eq!(moves[base + 2 * 62], put(Role::Pawn, 8));
    assert_eq!(moves[moves.len() - 1], put(Role::Pawn, 55));
}

#[test]
fn put_takes_the_piece_from_the_pocket_onto_the_square() {
    let checked = file_check(side(0, 2, 0, 0, 0, 0));
    assert_eq!(checked.count_pieces(), 6);
    let next = checked.play(&put(Role::Knight, 31)).ok().unwrap();
    assert_eq!(next.count_pieces(), 6);
    assert_eq!(next.pockets().white.knights, 1);
    assert_eq!(next.pockets().white.count(), 1);
    assert_eq!(next.pockets().black, nothing());
    assert_eq!(next.piece_at(31), Some(piece(Color::White, Role::Knight)));
    assert_eq!(next.turn(), Color::Black);
    assert_eq!(next.promoted_squares(), 0);
}

#[test]
fn put_of_a_piece_that_the_pocket_lacks_is_refused() {
    let checked = file_check(side(0, 1, 0, 0, 0, 0));
    let refused = match checked.play(&put(Role::Bishop, 31)) {
        Ok(_) => panic!("no bishop in the pocket"),
        Err(refused) => refused,
    };
    assert_eq!(refused.m, put(Role::Bishop, 31));
    assert_eq!(refused.position.pockets().white.knights, 1);
    assert_eq!(refused.position.turn(), Color::White);
    let off_line = refused.position.play(&put(Role::Knight, 30));
    assert!(off_line.is_err());
}

#[test]
fn move_off_the_board_is_not_legal() {
    let start = Bughouse::default();
    assert!(!start.is_legal(&put(Role::Knight, 200)));
    let wild = Move::Normal { role: Role::Pawn, from: 12, capture: None, to: 99, promotion: None };
    assert!(!start.is_legal(&wild));
    assert!(!wild.is_wf());
    assert!(start.play(&wild).is_err());
}

#[test]
fn capture_goes_to_the_pocket_of_the_capturer() {
    let mut setup = Setup::empty();
    setup.put(4, piece(Color::White, Role::King));
    setup.put(60, piece(Color::Black, Role::King));
    setup.put(0, piece(Color::White, Role::Rook));
    setup.put(48, piece(Color::Black, Role::Bishop));
    let start = position(&setup);
    let m = Move::Normal {
        role: Role::Rook,
        from: 0,
        capture: Some(Role::Bishop),
        to: 48,
        promotion: None,
    };
    assert_eq!(start.count_pieces(), 4);
    let next = start.play(&m).ok().unwrap();
    assert_eq!(next.count_pieces(), 4);
    assert_eq!(next.pockets().white, side(0, 0, 1, 0, 0, 0));
    assert_eq!(next.pockets().black, nothing());
    assert_eq!(next.piece_at(48), Some(piece(Color::White, Role::Rook)));
    assert_eq!(next.piece_at(0), None);
    assert_eq!(next.turn(), Color::Black);
}

#[test]
fn captured_promoted_piece_counts_as_a_pawn() {
    let mut setup = Setup::empty();
    setup.put(4, piece(Color::White, Role::King));
    setup.put(60, piece(Color::Black, Role::King));
    setup.put(0, piece(Color::White, Role::Rook));
    setup.pieces.push(Placed { square: 48, piece: piece(Color::Black, Role::Queen), promoted: true });
    let start = position(&setup);
    assert_eq!(start.promoted_squares(), 1 << 48);
    let m = Move::Normal {
        role: Role::Rook,
        from: 0,
        capture: Some(Role::Queen),
        to: 48,
        promotion: None,
    };
    let next = start.play(&m).ok().unwrap();
    assert_eq!(next.pockets().white, side(1, 0, 0, 0, 0, 0));
    assert_eq!(next.promoted_squares(), 0);
}

#[test]
fn promotion_marks_the_square() {
    let mut setup = Setup::empty();
    setup.put(4, piece(Color::White, Role::King));
    setup.put(63, piece(Color::Black, Role::King));
    setup.put(48, piece(Color::White, Role::Pawn));
    let start = position(&setup);
    let m = Move::Normal {
        role: Role::Pawn,
        from: 48,
        capture: None,
        to: 56,
        promotion: Some(Role::Queen),
    };
    let next = start.play(&m).ok().unwrap();
    assert_eq!(next.piece_at(56), Some(piece(Color::White, Role::Queen)));
    assert_eq!(next.promoted_squares(), 1 << 56);
    assert_eq!(*next.pockets(), Pockets { white: nothing(), black: nothing() });
}

#[test]
fn irreversible_moves() {
    let start = Bughouse::default();
    let knight = Move::Normal { role: Role::Knight, from: 6, capture: None, to: 21, promotion: None };
    let rook = Move::Normal { role: Role::Rook, from: 7, capture: None, to: 6, promotion: None };
    let king = Move::Normal { role: Role::King, from: 4, capture: None, to: 12, promotion: None };
    let onto = Move::Normal { role: Role::Bishop, from: 9, capture: Some(Role::Rook), to: 63, promotion: None };
    let pawn = Move::Normal { role: Role::Pawn, from: 12, capture: None, to: 28, promotion: None };
    assert!(!start.is_irreversible(&knight));
    assert!(start.is_irreversible(&rook));
    assert!(start.is_irreversible(&king));
    assert!(start.is_irreversible(&onto));
    assert!(!start.is_irreversible(&pawn));
    assert!(start.is_irreversible(&Move::Castle { king: 4, rook: 7 }));
    assert!(!start.is_irreversible(&put(Role::Knight, 30)));
    assert!(!start.is_irreversible(&Move::EnPassant { from: 32, to: 41 }));
}

#[test]
fn king_move_without_castling_rights_is_reversible() {
    let mut setup = Setup::empty();
    setup.put(4, piece(Color::White, Role::King));
    setup.put(60, piece(Color::Black, Role::King));
    setup.put(56, piece(Color::Black, Role::Rook));
    setup.castling_rights = 1 << 56;
    let start = position(&setup);
    assert_eq!(start.castling_rights(), 1 << 56);
    let white_king = Move::Normal { role: Role::King, from: 4, capture: None, to: 12, promotion: None };
    assert!(!start.is_irreversible(&white_king));
    let next = start.play(&white_king).ok().unwrap();
    let black_king = Move::Normal { role: Role::King, from: 60, capture: None, to: 52, promotion: None };
    assert!(next.is_irreversible(&black_king));
}

#[test]
fn castling_moves_by_wing() {
    let mut setup = Setup::empty();
    setup.put(4, piece(Color::White, Role::King));
    setup.put(60, piece(Color::Black, Role::King));
    setup.put(7, piece(Color::White, Role::Rook));
    setup.put(0, piece(Color::White, Role::Rook));
    setup.castling_rights = (1 << 7) | 1;
    let start = position(&setup);
    assert_eq!(start.castling_moves(CastlingSide::KingSide), vec![Move::Castle { king: 4, rook: 7 }]);
    assert_eq!(start.castling_moves(CastlingSide::QueenSide), vec![Move::Castle { king: 4, rook: 0 }]);
    assert!(start.en_passant_moves().is_empty());
    let next = start.play(&Move::Castle { king: 4, rook: 7 }).ok().unwrap();
    assert_eq!(next.piece_at(6), Some(piece(Color::White, Role::King)));
    assert_eq!(next.piece_at(5), Some(piece(Color::White, Role::Rook)));
    assert_eq!(next.castling_rights(), 0);
}

#[test]
fn san_candidates_joins_board_moves_and_the_drop() {
    let start = Bughouse::default().add_material(Pockets {
        white: side(0, 1, 0, 0, 0, 0),
        black: nothing(),
    });
    let found = start.san_candidates(Role::Knight, 21);
    assert_eq!(
        found,
        vec![
            Move::Normal { role: Role::Knight, from: 6, capture: None, to: 21, promotion: None },
            put(Role::Knight, 21),
        ]
    );
    assert!(start.san_candidates(Role::Bishop, 21).is_empty());
    assert!(start.san_candidates(Role::Knight, 12).is_empty());
    assert!(start.san_candidates(Role::King, 21).is_empty());
}

#[test]
fn stalemate_with_an_empty_pocket_is_a_draw() {
    let mut setup = Setup::empty();
    setup.put(56, piece(Color::Black, Role::King));
    setup.put(41, piece(Color::White, Role::King));
    setup.put(50, piece(Color::White, Role::Queen));
    setup.turn = Color::Black;
    let stuck = position(&setup);
    assert_eq!(stuck.checkers(), 0);
    assert!(stuck.legal_moves().is_empty());
    assert_eq!(stuck.outcome(), Some(Outcome::Draw));
    let mut setup = Setup::empty();
    setup.put(56, piece(Color::Black, Role::King));
    setup.put(41, piece(Color::White, Role::King));
    setup.put(50, piece(Color::White, Role::Queen));
    setup.turn = Color::Black;
    setup.pockets = Some(Pockets { white: nothing(), black: side(0, 1, 0, 0, 0, 0) });
    let free = position(&setup);
    assert_eq!(free.outcome(), None);
    assert!(!free.legal_moves().is_empty());
}
