use bughouse::bitboard::{
    complement, contains, count_squares, first_rank, intersection, single_square, BACK_RANKS,
};
use bughouse::error::{BughousePositionError, PositionErrorKinds, TOO_MANY_KINGS, VARIANT};
use bughouse::pocket::{PocketSide, Pockets};
use bughouse::types::{CastlingMode, CastlingSide, Color, Move, Piece, Role};

#[test]
fn other_side_of_white_is_black() {
    assert_eq!(Color::White.other(), Color::Black);
    assert_eq!(Color::Black.other(), Color::White);
    assert!(Color::White.is_white());
    assert!(!Color::Black.is_white());
    assert_eq!(Color::from_white(true), Color::White);
    assert_eq!(Color::from_white(false), Color::Black);
}

#[test]
fn roles_by_number() {
    let roles = [Role::Pawn, Role::Knight, Role::Bishop, Role::Rook, Role::Queen, Role::King];
    for (i, role) in roles.iter().enumerate() {
        assert_eq!(role.number() as usize, i + 1);
        assert_eq!(Role::numbered(role.number()), *role);
        assert!(role.same(*role));
    }
    assert!(!Role::Pawn.same(Role::King));
    assert_eq!(Role::numbered(0), Role::King);
    assert_eq!(Role::numbered_opt(None), None);
    assert_eq!(Role::numbered_opt(Some(4)), Some(Role::Rook));
    assert!(Role::same_opt(None, None));
    assert!(!Role::same_opt(None, Some(Role::Pawn)));
    assert!(Role::same_opt(Some(Role::Queen), Some(Role::Queen)));
}

#[test]
fn moves_by_number() {
    assert_eq!(
        Move::normal(1, 12, None, 28, None),
        Move::Normal { role: Role::Pawn, from: 12, capture: None, to: 28, promotion: None }
    );
    assert_eq!(
        Move::normal(1, 52, Some(4), 61, Some(5)),
        Move::Normal {
            role: Role::Pawn,
            from: 52,
            capture: Some(Role::Rook),
            to: 61,
            promotion: Some(Role::Queen)
        }
    );
    assert_eq!(Move::en_passant(32, 41), Move::EnPassant { from: 32, to: 41 });
    assert_eq!(Move::castle(4, 7), Move::Castle { king: 4, rook: 7 });
    assert_eq!(Move::put(2, 30), Move::Put { role: Role::Knight, to: 30 });
    assert_eq!(Piece::numbered(false, 6), Piece { color: Color::Black, role: Role::King });
}

#[test]
fn moves_compare_field_by_field() {
    let a = Move::normal(1, 12, None, 28, None);
    assert!(a.same(&a));
    assert!(!a.same(&Move::normal(1, 12, None, 20, None)));
    assert!(!a.same(&Move::normal(1, 12, Some(1), 28, None)));
    assert!(!a.same(&Move::put(1, 28)));
    assert!(Move::put(3, 9).same(&Move::put(3, 9)));
    assert!(!Move::put(3, 9).same(&Move::put(4, 9)));
    assert!(Move::castle(4, 0).same(&Move::castle(4, 0)));
    assert!(!Move::castle(4, 0).same(&Move::castle(4, 7)));
    assert!(Move::en_passant(1, 2).same(&Move::en_passant(1, 2)));
    assert!(Move::put(1, 63).is_wf());
    assert!(!Move::put(1, 64).is_wf());
    assert!(!Move::castle(4, 64).is_wf());
    assert!(!Move::en_passant(64, 4).is_wf());
}

#[test]
fn modes_and_wings() {
    assert!(CastlingMode::Chess960.is_chess960());
    assert!(!CastlingMode::Standard.is_chess960());
    assert!(CastlingSide::QueenSide.is_queen_side());
    assert!(!CastlingSide::KingSide.is_queen_side());
}

#[test]
fn sets_of_squares() {
    assert!(contains(0b100, 2));
    assert!(!contains(0b100, 1));
    assert!(contains(1 << 63, 63));
    assert_eq!(complement(0xffff), 0xffff_ffff_ffff_0000);
    assert_eq!(intersection(0b1100, 0b0110), 0b0100);
    assert_eq!(count_squares(0), 0);
    assert_eq!(count_squares(u64::MAX), 64);
    assert_eq!(count_squares(0x8100_0000_0000_0081), 4);
    assert_eq!(single_square(0), None);
    assert_eq!(single_square(1 << 17), Some(17));
    assert_eq!(single_square((1 << 17) | 1), None);
    assert_eq!(first_rank(Color::White), 0xff);
    assert_eq!(first_rank(Color::Black), 0xff00_0000_0000_0000);
    assert_eq!(BACK_RANKS, first_rank(Color::White) | first_rank(Color::Black));
}

#[test]
fn pockets_count_and_change() {
    let mut pocket = PocketSide::new();
    assert_eq!(pocket.count(), 0);
    pocket.put_in(Role::Knight);
    pocket.put_in(Role::Knight);
    pocket.put_in(Role::Queen);
    assert_eq!(pocket.by_role(Role::Knight), 2);
    assert_eq!(pocket.by_role(Role::Queen), 1);
    assert_eq!(pocket.by_role(Role::Pawn), 0);
    assert_eq!(pocket.count(), 3);
    pocket.take_out(Role::Knight);
    assert_eq!(pocket.knights, 1);
    let sum = pocket.add(pocket);
    assert_eq!(sum, PocketSide { pawns: 0, knights: 2, bishops: 0, rooks: 0, queens: 2, kings: 0 });
    let mut both = Pockets::new();
    both.put_in(Color::Black, Role::Rook);
    both.put_in(Color::White, Role::Pawn);
    both.put_in(Color::White, Role::Pawn);
    assert_eq!(both.by_color(Color::White).pawns, 2);
    assert_eq!(both.by_color(Color::Black).rooks, 1);
    assert_eq!(both.count(), 3);
    both.take_out(Color::White, Role::Pawn);
    assert_eq!(both.white.pawns, 1);
    assert_eq!(both.add(both).count(), 4);
}

#[test]
fn error_kinds() {
    let none = PositionErrorKinds::empty();
    assert!(none.is_empty());
    let both = PositionErrorKinds { bits: VARIANT | TOO_MANY_KINGS };
    assert!(!both.is_empty());
    assert!(both.contains(VARIANT));
    assert!(both.contains(TOO_MANY_KINGS));
    assert!(!PositionErrorKinds { bits: VARIANT }.contains(TOO_MANY_KINGS));
    assert_eq!(BughousePositionError::new(both).kinds(), both);
}
