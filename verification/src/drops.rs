//! Drops: the moves that set a piece from the pocket onto the board.

use vstd::prelude::*;
use crate::bitboard::{contains, member, on_back_ranks};
use crate::pocket::PocketSide;
use crate::types::{Move, Role};

verus! {

/// Whether `sq` lies on the first or the eighth rank.
pub open spec fn on_back_rank(sq: u8) -> bool {
    sq < 8 || sq >= 56
}

/// The drop of `role` on `sq` if the pocket holds such a piece.
pub open spec fn drop_of(pocket: PocketSide, role: Role, sq: u8) -> Seq<Move> {
    if pocket.of(role) > 0 {
        seq![Move::Put { role, to: sq }]
    } else {
        Seq::empty()
    }
}

/// The drops of pieces other than pawns on `sq`: knight, bishop, rook, queen,
/// each if the pocket holds one.
pub open spec fn officers_at(pocket: PocketSide, sq: u8) -> Seq<Move> {
    drop_of(pocket, Role::Knight, sq) + drop_of(pocket, Role::Bishop, sq) + drop_of(
        pocket,
        Role::Rook,
        sq,
    ) + drop_of(pocket, Role::Queen, sq)
}

/// The drops of pieces other than pawns on the squares below `n` that `ok` admits,
/// square by square.
pub open spec fn officer_drops(ok: spec_fn(u8) -> bool, pocket: PocketSide, n: nat) -> Seq<Move>
    decreases n,
{
    if n == 0 {
        Seq::empty()
    } else {
        officer_drops(ok, pocket, (n - 1) as nat) + if ok((n - 1) as u8) {
            officers_at(pocket, (n - 1) as u8)
        } else {
            Seq::empty()
        }
    }
}

/// The pawn drops on the squares below `n` that `ok` admits, none of them on the
/// first or the eighth rank.
pub open spec fn pawn_drops(ok: spec_fn(u8) -> bool, pocket: PocketSide, n: nat) -> Seq<Move>
    decreases n,
{
    if n == 0 {
        Seq::empty()
    } else {
        pawn_drops(ok, pocket, (n - 1) as nat) + if ok((n - 1) as u8) && !on_back_rank(
            (n - 1) as u8,
        ) {
            drop_of(pocket, Role::Pawn, (n - 1) as u8)
        } else {
            Seq::empty()
        }
    }
}

/// All drops on the squares that `ok` admits: first those of the other pieces, then those of pawns.
pub open spec fn drops(ok: spec_fn(u8) -> bool, pocket: PocketSide) -> Seq<Move> {
    officer_drops(ok, pocket, 64) + pawn_drops(ok, pocket, 64)
}

/// Whether the drop of `role` on `to` is among `drops(ok, pocket)`.
pub open spec fn is_drop(ok: spec_fn(u8) -> bool, pocket: PocketSide, role: Role, to: u8) -> bool {
    &&& to < 64
    &&& ok(to)
    &&& role != Role::King
    &&& pocket.of(role) > 0
    &&& role == Role::Pawn ==> !on_back_rank(to)
}

/// Which moves the drops of pieces other than pawns are.
pub proof fn lemma_officer_drops(ok: spec_fn(u8) -> bool, pocket: PocketSide, n: nat, m: Move)
    requires
        n <= 64,
    ensures
        officer_drops(ok, pocket, n).contains(m) <==> (m matches Move::Put { role, to } && to < n
            && role != Role::Pawn && is_drop(ok, pocket, role, to)),
    decreases n,
{
    if n > 0 {
        let sq = (n - 1) as u8;
        let before = officer_drops(ok, pocket, (n - 1) as nat);
        let here = if ok(sq) {
            officers_at(pocket, sq)
        } else {
            Seq::empty()
        };
        lemma_officer_drops(ok, pocket, (n - 1) as nat, m);
        lemma_contains_concat(before, here, m);
        lemma_officers_at(pocket, sq, m);
    }
}

/// Which moves the drops of pieces other than pawns on one square are.
pub proof fn lemma_officers_at(pocket: PocketSide, sq: u8, m: Move)
    ensures
        officers_at(pocket, sq).contains(m) <==> (m matches Move::Put { role, to } && to == sq
            && role != Role::Pawn && role != Role::King && pocket.of(role) > 0),
{
    let n = drop_of(pocket, Role::Knight, sq);
    let b = drop_of(pocket, Role::Bishop, sq);
    let r = drop_of(pocket, Role::Rook, sq);
    let q = drop_of(pocket, Role::Queen, sq);
    lemma_drop_of(pocket, Role::Knight, sq, m);
    lemma_drop_of(pocket, Role::Bishop, sq, m);
    lemma_drop_of(pocket, Role::Rook, sq, m);
    lemma_drop_of(pocket, Role::Queen, sq, m);
    lemma_contains_concat(n, b, m);
    lemma_contains_concat(n + b, r, m);
    lemma_contains_concat(n + b + r, q, m);
}

/// Which move the drop of one role on one square is.
pub proof fn lemma_drop_of(pocket: PocketSide, role: Role, sq: u8, m: Move)
    ensures
        drop_of(pocket, role, sq).contains(m) <==> (pocket.of(role) > 0 && m == (Move::Put {
            role,
            to: sq,
        })),
{
    if pocket.of(role) > 0 {
        let s = seq![Move::Put { role, to: sq }];
        assert(s[0] == (Move::Put { role, to: sq }));
        if m == (Move::Put { role, to: sq }) {
            assert(s.contains(m));
        }
    }
}

/// Which moves the pawn drops are.
pub proof fn lemma_pawn_drops(ok: spec_fn(u8) -> bool, pocket: PocketSide, n: nat, m: Move)
    requires
        n <= 64,
    ensures
        pawn_drops(ok, pocket, n).contains(m) <==> (m matches Move::Put { role, to } && to < n
            && role == Role::Pawn && is_drop(ok, pocket, role, to)),
    decreases n,
{
    if n > 0 {
        let sq = (n - 1) as u8;
        let before = pawn_drops(ok, pocket, (n - 1) as nat);
        let here = if ok(sq) && !on_back_rank(sq) {
            drop_of(pocket, Role::Pawn, sq)
        } else {
            Seq::empty()
        };
        lemma_pawn_drops(ok, pocket, (n - 1) as nat, m);
        lemma_contains_concat(before, here, m);
        lemma_drop_of(pocket, Role::Pawn, sq, m);
    }
}

/// A drop is among `drops(ok, pocket)` exactly if the pocket holds the piece, the
/// square is admitted and, for a pawn, lies on neither back rank; nothing else is.
pub proof fn lemma_drops(ok: spec_fn(u8) -> bool, pocket: PocketSide, m: Move)
    ensures
        drops(ok, pocket).contains(m) <==> (m matches Move::Put { role, to } && is_drop(
            ok,
            pocket,
            role,
            to,
        )),
{
    lemma_officer_drops(ok, pocket, 64, m);
    lemma_pawn_drops(ok, pocket, 64, m);
    lemma_contains_concat(officer_drops(ok, pocket, 64), pawn_drops(ok, pocket, 64), m);
}

/// A sequence made of two holds what either holds.
pub proof fn lemma_contains_concat(a: Seq<Move>, b: Seq<Move>, m: Move)
    ensures
        (a + b).contains(m) <==> a.contains(m) || b.contains(m),
{
    let c = a + b;
    if a.contains(m) {
        let i = choose|i: int| 0 <= i < a.len() && a[i] == m;
        assert(c[i] == m);
    }
    if b.contains(m) {
        let i = choose|i: int| 0 <= i < b.len() && b[i] == m;
        assert(c[a.len() + i] == m);
    }
    if c.contains(m) {
        let i = choose|i: int| 0 <= i < c.len() && c[i] == m;
        if i < a.len() {
            assert(a[i] == m);
        } else {
            assert(b[i - a.len()] == m);
        }
    }
}

/// Appends to `moves` every drop from `pocket` on the squares of `targets`.
pub(crate) fn push_drops(moves: &mut Vec<Move>, targets: u64, pocket: &PocketSide, Ghost(ok): Ghost<
    spec_fn(u8) -> bool,
>)
    requires
        forall|sq: u8| sq < 64 ==> (#[trigger] member(targets, sq) <==> ok(sq)),
    ensures
        final(moves)@ == old(moves)@ + drops(ok, *pocket),
{
    let ghost start = moves@;
    let mut sq: u8 = 0;
    while sq < 64
        invariant
            sq <= 64,
            forall|s: u8| s < 64 ==> (#[trigger] member(targets, s) <==> ok(s)),
            moves@ == start + officer_drops(ok, *pocket, sq as nat),
        decreases 64 - sq,
    {
        let ghost before = moves@;
        if contains(targets, sq) {
            if pocket.knights > 0 {
                moves.push(Move::Put { role: Role::Knight, to: sq });
            }
            if pocket.bishops > 0 {
                moves.push(Move::Put { role: Role::Bishop, to: sq });
            }
            if pocket.rooks > 0 {
                moves.push(Move::Put { role: Role::Rook, to: sq });
            }
            if pocket.queens > 0 {
                moves.push(Move::Put { role: Role::Queen, to: sq });
            }
            assert(moves@ =~= before + officers_at(*pocket, sq));
        }
        assert(moves@ =~= start + officer_drops(ok, *pocket, (sq + 1) as nat));
        sq = sq + 1;
    }
    let ghost middle = moves@;
    if pocket.pawns > 0 {
        let mut sq: u8 = 0;
        while sq < 64
            invariant
                sq <= 64,
                pocket.pawns > 0,
                forall|s: u8| s < 64 ==> (#[trigger] member(targets, s) <==> ok(s)),
                moves@ == middle + pawn_drops(ok, *pocket, sq as nat),
            decreases 64 - sq,
        {
            let ghost before = moves@;
            if contains(targets, sq) && !on_back_ranks(sq) {
                moves.push(Move::Put { role: Role::Pawn, to: sq });
                assert(moves@ =~= before + drop_of(*pocket, Role::Pawn, sq));
            }
            assert(moves@ =~= middle + pawn_drops(ok, *pocket, (sq + 1) as nat));
            sq = sq + 1;
        }
    } else {
        proof {
            lemma_no_pawn_drops(ok, *pocket, 64);
        }
    }
    assert(moves@ =~= start + drops(ok, *pocket));
}

/// A pocket without pawns offers no pawn drop.
pub proof fn lemma_no_pawn_drops(ok: spec_fn(u8) -> bool, pocket: PocketSide, n: nat)
    requires
        pocket.pawns == 0,
    ensures
        pawn_drops(ok, pocket, n) =~= Seq::<Move>::empty(),
    decreases n,
{
    if n > 0 {
        lemma_no_pawn_drops(ok, pocket, (n - 1) as nat);
    }
}

} // verus!
