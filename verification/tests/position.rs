use bughouse::board::{Bughouse, BughousePositionError};
use bughouse::error::{
    EMPTY_BOARD, IMPOSSIBLE_MATERIAL, MISSING_KING, TOO_MANY_KINGS, VARIANT,
};
use bughouse::pocket::{PocketSide, Pockets};
use bughouse::setup::{Placed, Setup};
use bughouse::types::{CastlingMode, Color, Move, Piece, Role};

fn piece(color: Color, role: Role) -> Piece {
    Piece { color, role }
}

fn side(pawns: u8, knights: u8, bishops: u8, rooks: u8, queens: u8, kings: u8) -> PocketSide {
    PocketSide { pawns, knights, bishops, rooks, queens, kings }
}

fn two_kings() -> Setup {
    let mut setup = Setup::empty();
    setup.put(4, piece(Color::White, Role::King));
    setup.put(60, piece(Color::Black, Role::King));
    setup
}

fn kinds(result: Result<Bughouse, BughousePositionError>) -> u32 {
    match result {
        Ok(_) => 0,
        Err(e) => e.kinds().bits,
    }
}

#[test]
fn initial_position_pawn_e2_e4() {
    let start = Bughouse::default();
    let m = Move::Normal { role: Role::Pawn, from: 12, capture: None, to: 28, promotion: None };
    let next = match start.play(&m) {
        Ok(next) => next,
        Err(_) => panic!("e2e4 is legal"),
    };
    assert_eq!(next.piece_at(12), None);
    assert_eq!(next.piece_at(28), Some(piece(Color::White, Role::Pawn)));
    assert_eq!(next.turn(), Color::Black);
    assert_eq!(*next.pockets(), Pockets { white: side(0, 0, 0, 0, 0, 0), black: side(0, 0, 0, 0, 0, 0) });
    // No black pawn can take on e3, so the engine reports no en passant square.
    assert_eq!(next.ep_square(), None);
    assert_eq!(next.halfmoves(), 0);
    assert_eq!(next.fullmoves(), 1);
}

#[test]
fn double_step_beside_a_pawn_sets_the_en_passant_square() {
    let mut setup = two_kings();
    setup.put(12, piece(Color::White, Role::Pawn));
    setup.put(27, piece(Color::Black, Role::Pawn));
    let start = Bughouse::from_setup(&setup, CastlingMode::Standard).ok().unwrap();
    let m = Move::Normal { role: Role::Pawn, from: 12, capture: None, to: 28, promotion: None };
    let next = start.play(&m).ok().unwrap();
    assert_eq!(next.ep_square(), Some(20));
    assert_eq!(next.en_passant_moves(), vec![Move::EnPassant { from: 27, to: 20 }]);
    assert_eq!(next.count_pawns(), 2);
    let taken = next.play(&Move::EnPassant { from: 27, to: 20 }).ok().unwrap();
    assert_eq!(taken.piece_at(28), None);
    assert_eq!(taken.piece_at(20), Some(piece(Color::Black, Role::Pawn)));
    assert_eq!(taken.pockets().black.pawns, 1);
    assert_eq!(taken.pockets().white.pawns, 0);
    assert_eq!(taken.count_pawns(), 2);
    assert_eq!(taken.count_pieces(), 4);
}

#[test]
fn default_is_the_start_of_a_game() {
    let start = Bughouse::default();
    assert_eq!(start.turn(), Color::White);
    assert_eq!(start.piece_at(0), Some(piece(Color::White, Role::Rook)));
    assert_eq!(start.piece_at(3), Some(piece(Color::White, Role::Queen)));
    assert_eq!(start.piece_at(4), Some(piece(Color::White, Role::King)));
    assert_eq!(start.piece_at(8), Some(piece(Color::White, Role::Pawn)));
    assert_eq!(start.piece_at(35), None);
    assert_eq!(start.piece_at(57), Some(piece(Color::Black, Role::Knight)));
    assert_eq!(start.piece_at(58), Some(piece(Color::Black, Role::Bishop)));
    assert_eq!(start.castling_rights(), 0x8100_0000_0000_0081);
    assert_eq!(start.occupied(), 0xffff_0000_0000_ffff);
    assert_eq!(start.promoted_squares(), 0);
    assert_eq!(start.checkers(), 0);
    assert_eq!(start.legal_moves().len(), 20);
    assert!(start.king_in_place());
    assert_eq!(start.pockets().count(), 0);
    assert_eq!(start.count_pieces(), 32);
    assert_eq!(start.count_pawns(), 16);
}

#[test]
fn setup_is_kept_by_the_position() {
    let mut setup = two_kings();
    setup.put(16, piece(Color::Black, Role::Knight));
    setup.turn = Color::Black;
    setup.halfmoves = 7;
    setup.fullmoves = 31;
    setup.pockets = Some(Pockets { white: side(1, 0, 2, 0, 0, 0), black: side(0, 3, 0, 0, 1, 0) });
    let position = Bughouse::from_setup(&setup, CastlingMode::Standard).ok().unwrap();
    assert_eq!(position.turn(), Color::Black);
    assert_eq!(position.halfmoves(), 7);
    assert_eq!(position.fullmoves(), 31);
    assert_eq!(position.piece_at(16), Some(piece(Color::Black, Role::Knight)));
    assert_eq!(position.piece_at(4), Some(piece(Color::White, Role::King)));
    assert_eq!(position.piece_at(11), None);
    assert_eq!(position.pockets().white, side(1, 0, 2, 0, 0, 0));
    assert_eq!(position.pockets().black, side(0, 3, 0, 0, 1, 0));
    assert_eq!(*position.our_pocket(), side(0, 3, 0, 0, 1, 0));
}

#[test]
fn a_later_piece_replaces_an_earlier_one_on_its_square() {
    let mut setup = two_kings();
    setup.put(20, piece(Color::White, Role::Knight));
    setup.put(20, piece(Color::Black, Role::Bishop));
    let position = Bughouse::from_setup(&setup, CastlingMode::Standard).ok().unwrap();
    assert_eq!(position.piece_at(20), Some(piece(Color::Black, Role::Bishop)));
}

#[test]
fn engine_objections_are_handed_on() {
    let setup = Setup::empty();
    let found = kinds(Bughouse::from_setup(&setup, CastlingMode::Standard));
    assert_eq!(found & EMPTY_BOARD, EMPTY_BOARD);
    assert_eq!(found & MISSING_KING, MISSING_KING);
    assert_eq!(found & VARIANT, 0);
}

fn nine_white_pawns() -> Setup {
    let mut setup = two_kings();
    let mut sq = 8;
    while sq < 17 {
        setup.put(sq, piece(Color::White, Role::Pawn));
        sq += 1;
    }
    setup
}

#[test]
fn material_that_standard_chess_cannot_reach_is_accepted() {
    let position = Bughouse::from_setup(&nine_white_pawns(), CastlingMode::Standard).ok().unwrap();
    assert_eq!(position.count_pawns(), 9);
    assert_eq!(position.count_pieces(), 11);
    assert_eq!(position.piece_at(16), Some(piece(Color::White, Role::Pawn)));
    assert_eq!(position.turn(), Color::White);
}

#[test]
fn second_queen_at_the_start_is_accepted() {
    let mut setup = Setup::empty();
    let officers = [
        Role::Rook,
        Role::Knight,
        Role::Bishop,
        Role::Queen,
        Role::King,
        Role::Bishop,
        Role::Knight,
        Role::Rook,
    ];
    let mut file = 0u8;
    while file < 8 {
        setup.put(file, piece(Color::White, officers[file as usize]));
        setup.put(8 + file, piece(Color::White, Role::Pawn));
        setup.put(48 + file, piece(Color::Black, Role::Pawn));
        setup.put(56 + file, piece(Color::Black, officers[file as usize]));
        file += 1;
    }
    setup.put(28, piece(Color::White, Role::Queen));
    setup.castling_rights = 0x8100_0000_0000_0081;
    let position = Bughouse::from_setup(&setup, CastlingMode::Standard).ok().unwrap();
    assert_eq!(position.count_pieces(), 33);
    assert_eq!(position.count_pawns(), 16);
    assert_eq!(position.piece_at(28), Some(piece(Color::White, Role::Queen)));
    assert_eq!(position.piece_at(3), Some(piece(Color::White, Role::Queen)));
    assert_eq!(position.castling_rights(), 0x8100_0000_0000_0081);
    assert_eq!(position.pockets().count(), 0);
    assert_eq!(position.halfmoves(), 0);
    assert_eq!(position.fullmoves(), 1);
}

#[test]
fn material_objection_stays_with_more_than_32_pawns() {
    let mut setup = nine_white_pawns();
    setup.pockets = Some(Pockets { white: side(24, 0, 0, 0, 0, 0), black: side(0, 0, 0, 0, 0, 0) });
    assert_eq!(kinds(Bughouse::from_setup(&setup, CastlingMode::Standard)), IMPOSSIBLE_MATERIAL);
    setup.pockets = Some(Pockets { white: side(23, 0, 0, 0, 0, 0), black: side(0, 0, 0, 0, 0, 0) });
    assert!(Bughouse::from_setup(&setup, CastlingMode::Standard).is_ok());
}

#[test]
fn material_objection_stays_with_more_than_64_pieces() {
    let mut setup = nine_white_pawns();
    setup.pockets = Some(Pockets { white: side(0, 54, 0, 0, 0, 0), black: side(0, 0, 0, 0, 0, 0) });
    assert_eq!(
        kinds(Bughouse::from_setup(&setup, CastlingMode::Standard)),
        IMPOSSIBLE_MATERIAL | VARIANT
    );
    setup.pockets = Some(Pockets { white: side(0, 53, 0, 0, 0, 0), black: side(0, 0, 0, 0, 0, 0) });
    assert!(Bughouse::from_setup(&setup, CastlingMode::Standard).is_ok());
}

#[test]
fn objections_of_engine_and_variant_come_together() {
    let mut setup = Setup::empty();
    setup.put(60, piece(Color::Black, Role::King));
    setup.pockets = Some(Pockets { white: side(0, 0, 0, 0, 0, 1), black: side(0, 0, 0, 0, 0, 0) });
    assert_eq!(
        kinds(Bughouse::from_setup(&setup, CastlingMode::Standard)),
        MISSING_KING | TOO_MANY_KINGS
    );
    let mut setup = nine_white_pawns();
    setup.pockets = Some(Pockets { white: side(0, 0, 0, 0, 0, 0), black: side(0, 0, 0, 0, 0, 2) });
    assert_eq!(kinds(Bughouse::from_setup(&setup, CastlingMode::Standard)), TOO_MANY_KINGS);
}

#[test]
fn more_than_64_pieces_are_refused() {
    let mut setup = two_kings();
    setup.pockets = Some(Pockets { white: side(63, 0, 0, 0, 0, 0), black: side(0, 0, 0, 0, 0, 0) });
    assert_eq!(kinds(Bughouse::from_setup(&setup, CastlingMode::Standard)), VARIANT);
    setup.pockets = Some(Pockets { white: side(31, 0, 0, 0, 0, 0), black: side(0, 31, 0, 0, 0, 0) });
    assert!(Bughouse::from_setup(&setup, CastlingMode::Standard).is_ok());
}

#[test]
fn a_king_in_a_pocket_is_refused() {
    let mut setup = two_kings();
    setup.pockets = Some(Pockets { white: side(0, 0, 0, 0, 0, 0), black: side(0, 0, 0, 0, 0, 1) });
    assert_eq!(kinds(Bughouse::from_setup(&setup, CastlingMode::Standard)), TOO_MANY_KINGS);
    setup.pockets = Some(Pockets { white: side(0, 0, 0, 0, 0, 1), black: side(0, 0, 0, 0, 0, 0) });
    assert_eq!(kinds(Bughouse::from_setup(&setup, CastlingMode::Standard)), TOO_MANY_KINGS);
}

#[test]
fn both_objections_of_the_variant_come_together() {
    let mut setup = two_kings();
    setup.pockets = Some(Pockets { white: side(0, 0, 0, 0, 0, 1), black: side(0, 0, 0, 70, 0, 0) });
    assert_eq!(
        kinds(Bughouse::from_setup(&setup, CastlingMode::Standard)),
        VARIANT | TOO_MANY_KINGS
    );
}

#[test]
fn sixty_pocket_pawns_are_accepted() {
    let mut setup = two_kings();
    setup.pockets = Some(Pockets { white: side(60, 0, 0, 0, 0, 0), black: side(0, 0, 0, 0, 0, 0) });
    let position = Bughouse::from_setup(&setup, CastlingMode::Standard).ok().unwrap();
    assert_eq!(position.pockets().white.pawns, 60);
    assert_eq!(position.count_pawns(), 60);
    assert_eq!(position.count_pieces(), 62);
}

#[test]
fn setup_with_a_square_off_the_board_is_not_well_formed() {
    let mut setup = two_kings();
    assert!(setup.is_wf());
    setup.pieces.push(Placed { square: 64, piece: piece(Color::White, Role::Pawn), promoted: false });
    assert!(!setup.is_wf());
    let mut other = two_kings();
    other.fullmoves = 0;
    assert!(!other.is_wf());
    let mut third = two_kings();
    third.ep_square = Some(99);
    assert!(!third.is_wf());
}

#[test]
fn add_material_adds_role_by_role() {
    let start = Bughouse::default();
    let more = Pockets { white: side(1, 2, 0, 0, 0, 0), black: side(0, 0, 3, 0, 1, 0) };
    let richer = start.add_material(more).add_material(more);
    assert_eq!(richer.pockets().white, side(2, 4, 0, 0, 0, 0));
    assert_eq!(richer.pockets().black, side(0, 0, 6, 0, 2, 0));
    assert_eq!(richer.pockets().count(), 14);
    assert_eq!(richer.turn(), Color::White);
}

#[test]
fn clone_is_a_copy() {
    let start = Bughouse::default().add_material(Pockets {
        white: side(0, 1, 0, 0, 0, 0),
        black: side(0, 0, 0, 0, 0, 0),
    });
    let copy = start.clone();
    assert_eq!(copy.turn(), start.turn());
    assert_eq!(copy.occupied(), start.occupied());
    assert_eq!(*copy.pockets(), *start.pockets());
    assert_eq!(copy.legal_moves(), start.legal_moves());
}

#[test]
fn rule_overrides() {
    let start = Bughouse::default();
    assert!(!start.has_insufficient_material(Color::White));
    assert!(!start.has_insufficient_material(Color::Black));
    assert!(!start.is_variant_end());
    assert_eq!(start.variant_outcome(), None);
    let bare = Bughouse::from_setup(&two_kings(), CastlingMode::Standard).ok().unwrap();
    assert!(!bare.has_insufficient_material(Color::White));
    assert_eq!(bare.outcome(), None);
}
