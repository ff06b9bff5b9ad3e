//! Board geometry: which squares a piece standing on a square reaches.
use vstd::prelude::*;
use crate::bits::{group_sq_in, lemma_sq_in_or, lemma_sq_in_single, sq_in, test_square};

verus! {

broadcast use group_sq_in;

pub open spec fn rank(s: int) -> int {
    s / 8
}

pub open spec fn file(s: int) -> int {
    s % 8
}

pub open spec fn abs(x: int) -> int {
    if x < 0 { -x } else { x }
}

pub open spec fn sgn(x: int) -> int {
    if x < 0 { -1 } else if x > 0 { 1 } else { 0 }
}

pub open spec fn on_board(s: int) -> bool {
    0 <= s < 64
}

/// One king step: the squares touching `s`.
pub open spec fn king_step(s: int, t: int) -> bool {
    on_board(s) && on_board(t) && s != t && abs(rank(t) - rank(s)) <= 1 && abs(file(t) - file(s)) <= 1
}

/// One knight jump.
pub open spec fn knight_step(s: int, t: int) -> bool {
    on_board(s) && on_board(t) && {
        let dr = abs(rank(t) - rank(s));
        let dc = abs(file(t) - file(s));
        (dr == 1 && dc == 2) || (dr == 2 && dc == 1)
    }
}

/// Rank direction in which pawns of a side advance.
pub open spec fn forward(white: bool) -> int {
    if white { 1 } else { -1 }
}

/// The two squares diagonally ahead of a pawn.
pub open spec fn pawn_hit(white: bool, s: int, t: int) -> bool {
    on_board(s) && on_board(t) && rank(t) - rank(s) == forward(white) && abs(file(t) - file(s)) == 1
}

/// The square `k` ranks ahead of a pawn of the side.
pub open spec fn ahead(white: bool, s: int, k: int) -> int {
    if white { s + 8 * k } else { s - 8 * k }
}

pub open spec fn orth_aligned(s: int, t: int) -> bool {
    on_board(s) && on_board(t) && s != t && (rank(s) == rank(t) || file(s) == file(t))
}

pub open spec fn diag_aligned(s: int, t: int) -> bool {
    on_board(s) && on_board(t) && s != t && abs(rank(t) - rank(s)) == abs(file(t) - file(s))
}

pub open spec fn aligned(s: int, t: int) -> bool {
    orth_aligned(s, t) || diag_aligned(s, t)
}

/// Index change of one step from `s` towards `t`.
pub open spec fn step(s: int, t: int) -> int {
    8 * sgn(rank(t) - rank(s)) + sgn(file(t) - file(s))
}

/// Number of steps from `s` to `t` along their common line.
pub open spec fn dist(s: int, t: int) -> int {
    let dr = abs(rank(t) - rank(s));
    let dc = abs(file(t) - file(s));
    if dr < dc { dc } else { dr }
}

/// How many of the `n - 1` squares after `cur` in steps of `st` are occupied.
pub open spec fn occupied_between(cur: int, st: int, n: int, occ: u64) -> int
    decreases n,
{
    if n <= 1 {
        0
    } else {
        (if sq_in(occ, cur + st) { 1int } else { 0int }) + occupied_between(cur + st, st, n - 1, occ)
    }
}

/// Number of occupied squares strictly between two aligned squares.
pub open spec fn blockers(s: int, t: int, occ: u64) -> int {
    occupied_between(s, step(s, t), dist(s, t), occ)
}

/// A slider on `s` sees `t`: they share a rank or file (or a diagonal, when
/// `diag`) and nothing stands between them.
pub open spec fn slides(s: int, t: int, occ: u64, diag: bool) -> bool {
    (if diag { diag_aligned(s, t) } else { orth_aligned(s, t) }) && blockers(s, t, occ) == 0
}

/// `u` lies on the line from `k` to `a`, after `k` and up to `a` included.
pub open spec fn on_segment(k: int, a: int, u: int) -> bool {
    aligned(k, u) && aligned(k, a) && step(k, u) == step(k, a) && dist(k, u) <= dist(k, a)
}

/// `u` is the square next to `k` on the side away from `a`.
pub open spec fn beyond(k: int, a: int, u: int) -> bool {
    aligned(k, u) && aligned(k, a) && step(k, u) == -step(k, a) && dist(k, u) == 1
}

/// A shape of reach from a square.
#[derive(Clone, Copy, PartialEq, Eq, Structural)]
pub enum Reach {
    King,
    Knight,
    /// Diagonal captures of a pawn of the given side (true: white).
    PawnHit(bool),
    /// Rook lines, stopping at the first occupied square.
    Orth,
    /// Bishop lines, stopping at the first occupied square.
    Diag,
    /// From a king square, the line up to and including the given square.
    Segment(u64),
    /// From a king square, the neighbour opposite the given square.
    Beyond(u64),
    /// From a king square, the squares on the king's line through the given
    /// square, on its side of the king.
    Ray(u64),
    /// One square straight ahead onto an empty square, for the given side.
    Push(bool),
    /// Two squares straight ahead from the home rank over empty squares.
    Double(bool),
}

pub open spec fn reaches(r: Reach, s: int, t: int, occ: u64) -> bool {
    match r {
        Reach::King => king_step(s, t),
        Reach::Knight => knight_step(s, t),
        Reach::PawnHit(white) => pawn_hit(white, s, t),
        Reach::Orth => slides(s, t, occ, false),
        Reach::Diag => slides(s, t, occ, true),
        Reach::Segment(a) => on_segment(s, a as int, t),
        Reach::Beyond(a) => beyond(s, a as int, t),
        Reach::Ray(a) => aligned(s, t) && aligned(s, a as int) && step(s, t) == step(s, a as int),
        Reach::Push(white) => on_board(s) && on_board(t) && t == ahead(white, s, 1) && !sq_in(occ, t),
        Reach::Double(white) => on_board(s) && on_board(t) && rank(s) == (if white { 1int } else { 6 })
            && t == ahead(white, s, 2) && !sq_in(occ, ahead(white, s, 1)) && !sq_in(occ, t),
    }
}

/// The mask of the squares below `n` that `r` reaches from `s`.
pub open spec fn reach_mask(r: Reach, s: int, occ: u64, n: int) -> u64
    decreases n,
{
    if n <= 0 {
        0
    } else {
        let prev = reach_mask(r, s, occ, n - 1);
        if reaches(r, s, n - 1, occ) {
            prev | (1u64 << ((n - 1) as u64))
        } else {
            prev
        }
    }
}

/// The mask of all squares that `r` reaches from `s`.
pub open spec fn reach_set(r: Reach, s: int, occ: u64) -> u64 {
    reach_mask(r, s, occ, 64)
}

pub proof fn lemma_reach_mask(r: Reach, s: int, occ: u64, n: int)
    requires
        0 <= n <= 64,
    ensures
        forall|t: int| #[trigger] sq_in(reach_mask(r, s, occ, n), t) == (0 <= t < n && reaches(r, s, t, occ)),
    decreases n,
{
    if n > 0 {
        lemma_reach_mask(r, s, occ, n - 1);
        let prev = reach_mask(r, s, occ, n - 1);
        let b = 1u64 << ((n - 1) as u64);
        assert forall|t: int| #[trigger] sq_in(reach_mask(r, s, occ, n), t) == (0 <= t < n && reaches(r, s, t, occ)) by {
            lemma_sq_in_single((n - 1) as u64, t);
            lemma_sq_in_or(prev, b, t);
        }
    }
}

pub broadcast proof fn lemma_reach_set(r: Reach, s: int, occ: u64, t: int)
    ensures
        #[trigger] sq_in(reach_set(r, s, occ), t) == (on_board(t) && reaches(r, s, t, occ)),
{
    lemma_reach_mask(r, s, occ, 64);
}


fn abs_exec(x: i64) -> (r: i64)
    requires
        -64 < x < 64,
    ensures
        r == abs(x as int),
{
    if x < 0 { -x } else { x }
}

fn sgn_exec(x: i64) -> (r: i64)
    ensures
        r == sgn(x as int),
{
    if x < 0 { -1 } else if x > 0 { 1 } else { 0 }
}

fn rank_exec(s: u64) -> (r: i64)
    requires
        s < 64,
    ensures
        r == rank(s as int),
        0 <= r < 8,
{
    (s / 8) as i64
}

fn file_exec(s: u64) -> (r: i64)
    requires
        s < 64,
    ensures
        r == file(s as int),
        0 <= r < 8,
{
    (s % 8) as i64
}

fn aligned_exec(s: u64, t: u64) -> (b: bool)
    requires
        s < 64,
        t < 64,
    ensures
        b == aligned(s as int, t as int),
{
    let dr = abs_exec(rank_exec(t) - rank_exec(s));
    let dc = abs_exec(file_exec(t) - file_exec(s));
    s != t && (dr == 0 || dc == 0 || dr == dc)
}

fn step_exec(s: u64, t: u64) -> (r: i64)
    requires
        s < 64,
        t < 64,
    ensures
        r == step(s as int, t as int),
{
    8 * sgn_exec(rank_exec(t) - rank_exec(s)) + sgn_exec(file_exec(t) - file_exec(s))
}

fn dist_exec(s: u64, t: u64) -> (r: i64)
    requires
        s < 64,
        t < 64,
    ensures
        r == dist(s as int, t as int),
{
    let dr = abs_exec(rank_exec(t) - rank_exec(s));
    let dc = abs_exec(file_exec(t) - file_exec(s));
    if dr < dc { dc } else { dr }
}

/// Counts the occupied squares strictly between two aligned squares.
pub fn count_blockers(s: u64, t: u64, occ: u64) -> (c: u64)
    requires
        s < 64,
        t < 64,
        aligned(s as int, t as int),
    ensures
        c as int == blockers(s as int, t as int, occ),
        c < 8,
{
    let rt = rank_exec(t);
    let ft = file_exec(t);
    let sr = sgn_exec(rt - rank_exec(s));
    let sc = sgn_exec(ft - file_exec(s));
    let st = step_exec(s, t);
    let mut n = dist_exec(s, t);
    let mut r = rank_exec(s);
    let mut f = file_exec(s);
    let mut acc: u64 = 0;
    assert(s as int == 8 * r + f);
    while n > 1
        invariant
            0 <= r < 8,
            0 <= f < 8,
            1 <= n <= 7,
            st == 8 * sr + sc,
            0 <= rt < 8,
            0 <= ft < 8,
            sr == 0 ==> r == rt,
            sr == 1 ==> rt - r == n,
            sr == -1 ==> r - rt == n,
            sc == 0 ==> f == ft,
            sc == 1 ==> ft - f == n,
            sc == -1 ==> f - ft == n,
            -1 <= sr <= 1,
            -1 <= sc <= 1,
            acc + n <= 8,
            acc as int + occupied_between(8 * r + f, st as int, n as int, occ) == blockers(s as int, t as int, occ),
        decreases n,
    {
        r = r + sr;
        f = f + sc;
        n = n - 1;
        let cur = (8 * r + f) as u64;
        if test_square(occ, cur) {
            acc = acc + 1;
        }
    }
    acc
}

/// Whether `r` reaches `t` from `s` on a board occupied as `occ`.
pub fn reaches_exec(r: Reach, s: u64, t: u64, occ: u64) -> (b: bool)
    requires
        s < 64,
        t < 64,
    ensures
        b == reaches(r, s as int, t as int, occ),
{
    let dr = rank_exec(t) - rank_exec(s);
    let dc = file_exec(t) - file_exec(s);
    let adr = abs_exec(dr);
    let adc = abs_exec(dc);
    match r {
        Reach::King => s != t && adr <= 1 && adc <= 1,
        Reach::Knight => (adr == 1 && adc == 2) || (adr == 2 && adc == 1),
        Reach::PawnHit(white) => dr == (if white { 1 } else { -1 }) && adc == 1,
        Reach::Orth => s != t && (dr == 0 || dc == 0) && count_blockers(s, t, occ) == 0,
        Reach::Diag => s != t && adr == adc && count_blockers(s, t, occ) == 0,
        Reach::Segment(a) => a < 64 && aligned_exec(s, t) && aligned_exec(s, a) && step_exec(s, t)
            == step_exec(s, a) && dist_exec(s, t) <= dist_exec(s, a),
        Reach::Beyond(a) => a < 64 && aligned_exec(s, t) && aligned_exec(s, a) && step_exec(s, t)
            == -step_exec(s, a) && dist_exec(s, t) == 1,
        Reach::Ray(a) => a < 64 && aligned_exec(s, t) && aligned_exec(s, a) && step_exec(s, t) == step_exec(s, a),
        Reach::Push(white) => {
            let one: i64 = if white { s as i64 + 8 } else { s as i64 - 8 };
            t as i64 == one && !test_square(occ, t)
        },
        Reach::Double(white) => {
            let one: i64 = if white { s as i64 + 8 } else { s as i64 - 8 };
            let two: i64 = if white { s as i64 + 16 } else { s as i64 - 16 };
            rank_exec(s) == (if white { 1 } else { 6 }) && t as i64 == two && !test_square(occ, one as u64)
                && !test_square(occ, t)
        },
    }
}

/// The mask of all squares that `r` reaches from `s`.
pub fn reach_from(r: Reach, s: u64, occ: u64) -> (m: u64)
    requires
        s < 64,
    ensures
        m == reach_set(r, s as int, occ),
{
    let mut m: u64 = 0;
    let mut t: u64 = 0;
    while t < 64
        invariant
            t <= 64,
            s < 64,
            m == reach_mask(r, s as int, occ, t as int),
        decreases 64 - t,
    {
        if reaches_exec(r, s, t, occ) {
            m = m | (1u64 << t);
        }
        t = t + 1;
    }
    m
}

} // verus!
