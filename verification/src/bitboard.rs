//! Sets of squares as 64-bit words: bit `sq` stands for square `sq`.

use vstd::prelude::*;
use crate::types::Color;

verus! {

/// The first and the eighth rank.
pub const BACK_RANKS: u64 = 0xff00_0000_0000_00ff;

/// The word that holds square `sq` alone.
pub open spec fn square_bit(sq: u8) -> u64 {
    1u64 << sq
}

/// Whether the set `bb` holds square `sq`.
pub open spec fn member(bb: u64, sq: u8) -> bool {
    bb & (1u64 << sq) != 0
}

/// How many of the squares below `n` satisfy `f`.
pub open spec fn tally(f: spec_fn(u8) -> bool, n: nat) -> nat
    decreases n,
{
    if n == 0 {
        0
    } else {
        tally(f, (n - 1) as nat) + if f((n - 1) as u8) { 1nat } else { 0nat }
    }
}

/// The number of squares in `bb`.
pub open spec fn count(bb: u64) -> nat {
    tally(|sq: u8| member(bb, sq), 64)
}

/// The squares of the rank nearest to `color`.
pub open spec fn home_rank(color: Color) -> u64 {
    match color {
        Color::White => 0xffu64,
        Color::Black => 0xff00_0000_0000_0000u64,
    }
}

/// No more squares are counted than there are.
pub proof fn lemma_tally_bound(f: spec_fn(u8) -> bool, n: nat)
    ensures
        tally(f, n) <= n,
    decreases n,
{
    if n > 0 {
        lemma_tally_bound(f, (n - 1) as nat);
    }
}

/// Two properties that agree below `n` count the same.
pub proof fn lemma_tally_agree(f: spec_fn(u8) -> bool, g: spec_fn(u8) -> bool, n: nat)
    requires
        n <= 256,
        forall|sq: u8| sq < n ==> #[trigger] f(sq) == g(sq),
    ensures
        tally(f, n) == tally(g, n),
    decreases n,
{
    if n > 0 {
        lemma_tally_agree(f, g, (n - 1) as nat);
    }
}

/// A property that differs from another at most on square `at` counts at most one more.
pub proof fn lemma_tally_one_more(f: spec_fn(u8) -> bool, g: spec_fn(u8) -> bool, at: u8, n: nat)
    requires
        n <= 256,
        forall|sq: u8| sq < n && sq != at ==> #[trigger] f(sq) == g(sq),
    ensures
        tally(g, n) <= tally(f, n) + 1,
        at >= n ==> tally(g, n) == tally(f, n),
    decreases n,
{
    if n > 0 {
        lemma_tally_one_more(f, g, at, (n - 1) as nat);
    }
}

/// A property that holds on one more square than another, and else where it does,
/// counts exactly one more.
pub proof fn lemma_tally_one_new(f: spec_fn(u8) -> bool, g: spec_fn(u8) -> bool, at: u8, n: nat)
    requires
        n <= 256,
        at < n,
        !f(at),
        g(at),
        forall|sq: u8| sq < n && sq != at ==> #[trigger] f(sq) == g(sq),
    ensures
        tally(g, n) == tally(f, n) + 1,
    decreases n,
{
    if at == n - 1 {
        lemma_tally_one_more(f, g, at, (n - 1) as nat);
    } else {
        lemma_tally_one_new(f, g, at, (n - 1) as nat);
    }
}

/// Membership test.
pub fn contains(bb: u64, sq: u8) -> (r: bool)
    requires
        sq < 64,
    ensures
        r == member(bb, sq),
{
    bb & (1u64 << sq) != 0
}

/// The squares that `bb` lacks.
pub fn complement(bb: u64) -> (r: u64)
    ensures
        r == !bb,
        forall|sq: u8| sq < 64 ==> (#[trigger] member(r, sq) <==> !member(bb, sq)),
{
    let r: u64 = !bb;
    assert forall|sq: u8| sq < 64 implies (#[trigger] member(r, sq) <==> !member(bb, sq)) by {
        assert(sq < 64 ==> (((!bb) & (1u64 << sq) != 0) <==> !(bb & (1u64 << sq) != 0)))
            by (bit_vector);
    }
    r
}

/// The squares common to `a` and `b`.
pub fn intersection(a: u64, b: u64) -> (r: u64)
    ensures
        r == a & b,
        forall|sq: u8| sq < 64 ==> (#[trigger] member(r, sq) <==> member(a, sq) && member(b, sq)),
{
    let r: u64 = a & b;
    assert forall|sq: u8| sq < 64 implies (#[trigger] member(r, sq) <==> member(a, sq) && member(b, sq)) by {
        assert(sq < 64 ==> (((a & b) & (1u64 << sq) != 0) <==> (a & (1u64 << sq) != 0) && (b & (
        1u64 << sq) != 0))) by (bit_vector);
    }
    r
}

/// Different squares have different words.
pub proof fn lemma_square_bit_injective(a: u8, b: u8)
    requires
        a < 64,
        b < 64,
        square_bit(a) == square_bit(b),
    ensures
        a == b,
{
    assert(a < 64 && b < 64 && (1u64 << a) == (1u64 << b) ==> a == b) by (bit_vector);
}

/// The empty set holds no square.
pub proof fn lemma_empty_has_none(sq: u8)
    ensures
        !member(0, sq),
{
    assert(0u64 & (1u64 << sq) == 0) by (bit_vector);
}

/// Which squares lie on the first or the eighth rank.
pub proof fn lemma_back_ranks(sq: u8)
    requires
        sq < 64,
    ensures
        member(BACK_RANKS, sq) <==> (sq < 8 || sq >= 56),
{
    assert(sq < 64 ==> ((0xff00_0000_0000_00ffu64 & (1u64 << sq) != 0) <==> (sq < 8 || sq >= 56)))
        by (bit_vector);
}

/// Whether `sq` lies on the first or the eighth rank.
pub fn on_back_ranks(sq: u8) -> (r: bool)
    requires
        sq < 64,
    ensures
        r == (sq < 8 || sq >= 56),
{
    proof {
        lemma_back_ranks(sq);
    }
    contains(BACK_RANKS, sq)
}

/// The squares of the rank nearest to `color`.
pub fn first_rank(color: Color) -> (r: u64)
    ensures
        r == home_rank(color),
{
    match color {
        Color::White => 0xff,
        Color::Black => 0xff00_0000_0000_0000,
    }
}

/// The number of squares in `bb`.
pub fn count_squares(bb: u64) -> (r: usize)
    ensures
        r == count(bb),
        r <= 64,
{
    let mut n: usize = 0;
    let mut sq: u8 = 0;
    while sq < 64
        invariant
            sq <= 64,
            n == tally(|s: u8| member(bb, s), sq as nat),
            n <= sq,
        decreases 64 - sq,
    {
        if contains(bb, sq) {
            n = n + 1;
        }
        sq = sq + 1;
    }
    n
}

/// The one square of `bb`, if it holds exactly one.
pub fn single_square(bb: u64) -> (r: Option<u8>)
    ensures
        match r {
            Some(sq) => sq < 64 && bb == square_bit(sq),
            None => forall|sq: u8| sq < 64 ==> bb != #[trigger] square_bit(sq),
        },
{
    let mut sq: u8 = 0;
    while sq < 64
        invariant
            sq <= 64,
            forall|t: u8| t < sq ==> bb != #[trigger] square_bit(t),
        decreases 64 - sq,
    {
        if bb == 1u64 << sq {
            return Some(sq);
        }
        sq = sq + 1;
    }
    None
}

} // verus!
