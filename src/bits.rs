//! Bitboards as sets of squares.
use vstd::prelude::*;
use vstd::std_specs::bits::{axiom_u64_trailing_zeros, u64_trailing_zeros};

verus! {

/// Square `s` lies on the board and its bit is set in the mask `m`.
pub open spec fn sq_in(m: u64, s: int) -> bool {
    0 <= s < 64 && (m >> (s as u64)) & 1u64 == 1u64
}

proof fn bits_of_operators(a: u64, b: u64, s: u64, t: u64)
    by (bit_vector)
    requires
        s < 64,
        t < 64,
    ensures
        ((a & b) >> s) & 1u64 == 1u64 <==> ((a >> s) & 1u64 == 1u64 && (b >> s) & 1u64 == 1u64),
        ((a | b) >> s) & 1u64 == 1u64 <==> ((a >> s) & 1u64 == 1u64 || (b >> s) & 1u64 == 1u64),
        ((a ^ b) >> s) & 1u64 == 1u64 <==> ((a >> s) & 1u64 == 1u64) != ((b >> s) & 1u64 == 1u64),
        ((!a) >> s) & 1u64 == 1u64 <==> !((a >> s) & 1u64 == 1u64),
        ((1u64 << t) >> s) & 1u64 == 1u64 <==> s == t,
        (0u64 >> s) & 1u64 != 1u64,
{
}

pub broadcast proof fn lemma_sq_in_and(a: u64, b: u64, s: int)
    ensures
        #[trigger] sq_in(a & b, s) == (sq_in(a, s) && sq_in(b, s)),
{
    if 0 <= s < 64 {
        bits_of_operators(a, b, s as u64, 0);
    }
}

pub broadcast proof fn lemma_sq_in_or(a: u64, b: u64, s: int)
    ensures
        #[trigger] sq_in(a | b, s) == (sq_in(a, s) || sq_in(b, s)),
{
    if 0 <= s < 64 {
        bits_of_operators(a, b, s as u64, 0);
    }
}

pub broadcast proof fn lemma_sq_in_xor(a: u64, b: u64, s: int)
    ensures
        #[trigger] sq_in(a ^ b, s) == (sq_in(a, s) != sq_in(b, s)),
{
    if 0 <= s < 64 {
        bits_of_operators(a, b, s as u64, 0);
    }
}

pub broadcast proof fn lemma_sq_in_not(a: u64, s: int)
    ensures
        #[trigger] sq_in(!a, s) == (0 <= s < 64 && !sq_in(a, s)),
{
    if 0 <= s < 64 {
        bits_of_operators(a, 0, s as u64, 0);
    }
}

pub broadcast proof fn lemma_sq_in_zero(s: int)
    ensures
        !#[trigger] sq_in(0u64, s),
{
    if 0 <= s < 64 {
        bits_of_operators(0, 0, s as u64, 0);
    }
}

pub broadcast proof fn lemma_sq_in_single(t: u64, s: int)
    requires
        t < 64,
    ensures
        #[trigger] sq_in(1u64 << t, s) == (s == t as int),
{
    if 0 <= s < 64 {
        bits_of_operators(0, 0, s as u64, t);
    }
}

pub broadcast group group_sq_in {
    lemma_sq_in_and,
    lemma_sq_in_or,
    lemma_sq_in_xor,
    lemma_sq_in_not,
    lemma_sq_in_zero,
    lemma_sq_in_single,
}

pub proof fn lemma_or_comm(a: u64, b: u64)
    by (bit_vector)
    ensures
        a | b == b | a,
{
}

/// `a` holds exactly one square.
pub open spec fn single(a: u64) -> bool {
    a != 0 && a & ((a - 1) as u64) == 0
}

/// The lowest square of a mask (64 for an empty one).
pub open spec fn lowest(a: u64) -> int {
    u64_trailing_zeros(a) as int
}

proof fn bits_of_single(a: u64, t: u64)
    by (bit_vector)
    requires
        t < 64,
        a != 0,
        a & ((a - 1) as u64) == 0,
        (a >> t) & 1u64 == 1u64,
    ensures
        a == 1u64 << t,
{
}

/// A mask with one square is that square's bit.
pub proof fn lemma_single(a: u64)
    requires
        single(a),
    ensures
        0 <= lowest(a) < 64,
        a == 1u64 << (lowest(a) as u64),
        forall|s: int| #[trigger] sq_in(a, s) == (s == lowest(a)),
{
    axiom_u64_trailing_zeros(a);
    bits_of_single(a, lowest(a) as u64);
    assert forall|s: int| #[trigger] sq_in(a, s) == (s == lowest(a)) by {
        lemma_sq_in_single(lowest(a) as u64, s);
    }
}

proof fn bits_of_equality(x: u64, y: u64, t: u64)
    by (bit_vector)
    requires
        t < 64,
    ensures
        x ^ y == 0 ==> x == y,
        (1u64 << t) != 0 && (1u64 << t) & (((1u64 << t) - 1) as u64) == 0,
{
}

/// A mask is empty when no square is set in it.
pub proof fn lemma_empty(x: u64)
    ensures
        x == 0 <==> (forall|s: int| !#[trigger] sq_in(x, s)),
{
    broadcast use group_sq_in;

    if x != 0 {
        axiom_u64_trailing_zeros(x);
        assert(sq_in(x, lowest(x)));
    }
}

/// Two masks with the same squares are equal.
pub proof fn lemma_same_squares(x: u64, y: u64)
    requires
        forall|s: int| #[trigger] sq_in(x, s) == sq_in(y, s),
    ensures
        x == y,
{
    broadcast use group_sq_in;

    assert forall|s: int| !#[trigger] sq_in(x ^ y, s) by {
        assert(sq_in(x, s) == sq_in(y, s));
    }
    lemma_empty(x ^ y);
    bits_of_equality(x, y, 0);
}

/// A mask whose only square is `t` holds one square.
pub proof fn lemma_only_square(x: u64, t: int)
    requires
        0 <= t < 64,
        forall|s: int| #[trigger] sq_in(x, s) == (s == t),
    ensures
        single(x),
{
    broadcast use group_sq_in;

    lemma_sq_in_single(t as u64, 0);
    assert forall|s: int| #[trigger] sq_in(x, s) == sq_in(1u64 << (t as u64), s) by {
        lemma_sq_in_single(t as u64, s);
    }
    lemma_same_squares(x, 1u64 << (t as u64));
    bits_of_equality(0, 0, t as u64);
}

/// The lowest square of a mask that holds one square.
pub fn lowest_square(a: u64) -> (r: u64)
    requires
        single(a),
    ensures
        r == lowest(a),
        r < 64,
        a == 1u64 << r,
        forall|s: int| #[trigger] sq_in(a, s) == (s == r),
{
    proof {
        lemma_single(a);
    }
    a.trailing_zeros() as u64
}

/// The mask holding the one square `position`.
pub fn positionToSquare(position: u8) -> (r: u64)
    requires
        position < 64,
    ensures
        r == 1u64 << position,
        forall|s: int| #[trigger] sq_in(r, s) == (s == position as int),
{
    broadcast use group_sq_in;
    1u64 << position
}

/// Whether square `s` is set in `m`.
pub fn test_square(m: u64, s: u64) -> (r: bool)
    requires
        s < 64,
    ensures
        r == sq_in(m, s as int),
{
    (m >> s) & 1 == 1
}

} // verus!
