//! Reading a position from Forsyth-Edwards notation.
use vstd::prelude::*;
use vstd::string::StringSliceAdditionalSpecFns;
use crate::board::Board;
use crate::pieces::Pieces;
use crate::state::State;

verus! {

pub open spec fn is_space(c: u8) -> bool {
    c == 32 || (9 <= c && c <= 13)
}

/// The first index from `i` on that holds no white space.
pub open spec fn skip_spaces(b: Seq<u8>, i: int) -> int
    decreases b.len() - i,
{
    if 0 <= i < b.len() && is_space(b[i]) {
        skip_spaces(b, i + 1)
    } else {
        i
    }
}

/// The first index from `i` on that holds white space, or the end.
pub open spec fn word_end(b: Seq<u8>, i: int) -> int
    decreases b.len() - i,
{
    if 0 <= i < b.len() && !is_space(b[i]) {
        word_end(b, i + 1)
    } else {
        i
    }
}

/// The piece type that a letter names, in lower case, or ' '.
pub open spec fn letter_kind(c: u8) -> char {
    let l = if 65 <= c && c <= 90 { (c + 32) as u8 } else { c };
    if l == 107 {
        'k'
    } else if l == 113 {
        'q'
    } else if l == 114 {
        'r'
    } else if l == 98 {
        'b'
    } else if l == 110 {
        'n'
    } else if l == 112 {
        'p'
    } else {
        ' '
    }
}

/// The bitboard of type `c` with the squares of `m` added.
pub open spec fn with_piece(p: Pieces, c: char, m: u64) -> Pieces {
    if c == 'k' {
        Pieces { k: p.k | m, ..p }
    } else if c == 'q' {
        Pieces { q: p.q | m, ..p }
    } else if c == 'r' {
        Pieces { r: p.r | m, ..p }
    } else if c == 'b' {
        Pieces { b: p.b | m, ..p }
    } else if c == 'n' {
        Pieces { n: p.n | m, ..p }
    } else {
        Pieces { p: p.p | m, ..p }
    }
}

pub open spec fn no_pieces() -> Pieces {
    Pieces { k: 0, q: 0, r: 0, b: 0, n: 0, p: 0 }
}

/// Reading the placement field: rank from 7 down, file from 0 up, white's
/// and black's pieces, and whether all was readable.
pub open spec fn read_step(acc: (int, int, Pieces, Pieces, bool), c: u8) -> (int, int, Pieces, Pieces, bool) {
    let (row, col, w, bl, ok) = acc;
    let sq = row * 8 + col;
    if !ok {
        acc
    } else if c == 47 {
        (row - 1, 0, w, bl, true)
    } else if 49 <= c && c <= 56 {
        (row, col + (c - 48), w, bl, true)
    } else if letter_kind(c) != ' ' && 0 <= sq < 64 {
        if 65 <= c && c <= 90 {
            (row, col + 1, with_piece(w, letter_kind(c), 1u64 << (sq as u64)), bl, true)
        } else {
            (row, col + 1, w, with_piece(bl, letter_kind(c), 1u64 << (sq as u64)), true)
        }
    } else {
        (row, col, w, bl, false)
    }
}

/// The placement read from the bytes `lo` up to `hi`.
pub open spec fn read_placement(b: Seq<u8>, lo: int, hi: int) -> (int, int, Pieces, Pieces, bool)
    decreases hi - lo,
{
    if hi <= lo {
        (7, 0, no_pieces(), no_pieces(), true)
    } else {
        read_step(read_placement(b, lo, hi - 1), b[hi - 1])
    }
}

/// Some byte from `lo` up to `hi` is `c`.
pub open spec fn has_byte(b: Seq<u8>, lo: int, hi: int, c: u8) -> bool {
    exists|i: int| lo <= i < hi && b[i] == c
}

/// The position that a FEN text describes: the placement, the side to move
/// (white only for the word `w`), the castling letters `KQkq` anywhere in the
/// third word, and the en passant file from the first letter of the fourth,
/// unless that word is `-`. None when there are fewer than four words, the
/// placement holds a byte that is not a piece letter, a digit from 1 to 8 or
/// `/`, or puts a piece off the board, or the en passant word starts with
/// anything but a file letter.
pub open spec fn fen_board(b: Seq<u8>) -> Option<Board> {
    let a0 = skip_spaces(b, 0);
    let e0 = word_end(b, a0);
    let a1 = skip_spaces(b, e0);
    let e1 = word_end(b, a1);
    let a2 = skip_spaces(b, e1);
    let e2 = word_end(b, a2);
    let a3 = skip_spaces(b, e2);
    let e3 = word_end(b, a3);
    let (row, col, w, bl, ok) = read_placement(b, a0, e0);
    if a3 >= b.len() || !ok {
        None
    } else {
        let side: u16 = if e1 == a1 + 1 && b[a1] == 119 { 1 } else { 0 };
        let wr: u16 = if has_byte(b, a2, e2, 75) { 16 } else { 0 };
        let wl: u16 = if has_byte(b, a2, e2, 81) { 8 } else { 0 };
        let br: u16 = if has_byte(b, a2, e2, 107) { 4 } else { 0 };
        let bl2: u16 = if has_byte(b, a2, e2, 113) { 2 } else { 0 };
        let base: u16 = side | wr | wl | br | bl2;
        if e3 == a3 + 1 && b[a3] == 45 {
            Some(Board { w, b: bl, st: State { state: base } })
        } else if 97 <= b[a3] && b[a3] <= 104 {
            let file = (b[a3] - 97) as u16;
            Some(Board { w, b: bl, st: State { state: base | ((1u16 << file) << 8u16) | 32 } })
        } else {
            None
        }
    }
}

fn is_space_exec(c: u8) -> (r: bool)
    ensures
        r == is_space(c),
{
    c == 32 || (9 <= c && c <= 13)
}

fn skip_spaces_exec(b: &[u8], i: usize) -> (r: usize)
    requires
        i <= b@.len(),
    ensures
        r == skip_spaces(b@, i as int),
        i <= r <= b@.len(),
{
    let mut j = i;
    while j < b.len() && is_space_exec(b[j])
        invariant
            i <= j <= b@.len(),
            skip_spaces(b@, j as int) == skip_spaces(b@, i as int),
        decreases b@.len() - j,
    {
        j = j + 1;
    }
    j
}

fn word_end_exec(b: &[u8], i: usize) -> (r: usize)
    requires
        i <= b@.len(),
    ensures
        r == word_end(b@, i as int),
        i <= r <= b@.len(),
{
    let mut j = i;
    while j < b.len() && !is_space_exec(b[j])
        invariant
            i <= j <= b@.len(),
            word_end(b@, j as int) == word_end(b@, i as int),
        decreases b@.len() - j,
    {
        j = j + 1;
    }
    j
}

fn has_byte_exec(b: &[u8], lo: usize, hi: usize, c: u8) -> (r: bool)
    requires
        lo <= hi <= b@.len(),
    ensures
        r == has_byte(b@, lo as int, hi as int, c),
{
    let mut i = lo;
    while i < hi
        invariant
            lo <= i <= hi <= b@.len(),
            forall|j: int| lo <= j < i ==> b@[j] != c,
        decreases hi - i,
    {
        if b[i] == c {
            return true;
        }
        i = i + 1;
    }
    false
}

fn letter_kind_exec(c: u8) -> (r: char)
    ensures
        r == letter_kind(c),
{
    let l = if 65 <= c && c <= 90 { c + 32 } else { c };
    if l == 107 {
        'k'
    } else if l == 113 {
        'q'
    } else if l == 114 {
        'r'
    } else if l == 98 {
        'b'
    } else if l == 110 {
        'n'
    } else if l == 112 {
        'p'
    } else {
        ' '
    }
}

fn add_piece(p: &mut Pieces, c: char, m: u64)
    ensures
        *final(p) == with_piece(*old(p), c, m),
{
    if c == 'k' {
        p.k = p.k | m;
    } else if c == 'q' {
        p.q = p.q | m;
    } else if c == 'r' {
        p.r = p.r | m;
    } else if c == 'b' {
        p.b = p.b | m;
    } else if c == 'n' {
        p.n = p.n | m;
    } else {
        p.p = p.p | m;
    }
}

impl Board {
    /// Reads a position from FEN text; see `fen_board` for when it fails.
    pub fn from_fen(fen: &str) -> (r: Option<Board>)
        ensures
            r == fen_board(fen.spec_bytes()),
    {
        let b = fen.as_bytes();
        let a0 = skip_spaces_exec(b, 0);
        let e0 = word_end_exec(b, a0);
        let a1 = skip_spaces_exec(b, e0);
        let e1 = word_end_exec(b, a1);
        let a2 = skip_spaces_exec(b, e1);
        let e2 = word_end_exec(b, a2);
        let a3 = skip_spaces_exec(b, e2);
        let e3 = word_end_exec(b, a3);
        let mut w = Pieces { k: 0, q: 0, r: 0, b: 0, n: 0, p: 0 };
        let mut bl = Pieces { k: 0, q: 0, r: 0, b: 0, n: 0, p: 0 };
        let mut row: i128 = 7;
        let mut col: i128 = 0;
        let mut i = a0;
        while i < e0
            invariant
                a0 <= i <= e0 <= b@.len(),
                b@ == fen.spec_bytes(),
                a0 == skip_spaces(b@, 0),
                e0 == word_end(b@, a0 as int),
                -(i as int) <= row <= 7,
                0 <= col <= 8 * (i as int),
                read_placement(b@, a0 as int, i as int) == (row as int, col as int, w, bl, true),
            decreases e0 - i,
        {
            let c = b[i];
            let sq: i128 = row * 8 + col;
            if c == 47 {
                row = row - 1;
                col = 0;
            } else if 49 <= c && c <= 56 {
                col = col + (c - 48) as i128;
            } else {
                let kind = letter_kind_exec(c);
                if kind == ' ' || sq < 0 || sq >= 64 {
                    proof {
                        assert(read_placement(b@, a0 as int, (i + 1) as int).4 == false);
                        lemma_failed_stays(b@, a0 as int, (i + 1) as int, e0 as int);
                    }
                    return None;
                }
                let m = 1u64 << (sq as u64);
                if 65 <= c && c <= 90 {
                    add_piece(&mut w, kind, m);
                } else {
                    add_piece(&mut bl, kind, m);
                }
                col = col + 1;
            }
            i = i + 1;
        }
        if a3 >= b.len() {
            return None;
        }
        let side: u16 = if e1 == a1 + 1 && b[a1] == 119 { 1 } else { 0 };
        let wr: u16 = if has_byte_exec(b, a2, e2, 75) { 16 } else { 0 };
        let wl: u16 = if has_byte_exec(b, a2, e2, 81) { 8 } else { 0 };
        let br: u16 = if has_byte_exec(b, a2, e2, 107) { 4 } else { 0 };
        let bq: u16 = if has_byte_exec(b, a2, e2, 113) { 2 } else { 0 };
        let base: u16 = side | wr | wl | br | bq;
        if e3 == a3 + 1 && b[a3] == 45 {
            Some(Board { w, b: bl, st: State { state: base } })
        } else if 97 <= b[a3] && b[a3] <= 104 {
            let file = (b[a3] - 97) as u16;
            Some(Board { w, b: bl, st: State { state: base | ((1u16 << file) << 8) | 32 } })
        } else {
            None
        }
    }
}

/// Once the placement has failed, it stays failed.
proof fn lemma_failed_stays(b: Seq<u8>, lo: int, mid: int, hi: int)
    requires
        lo <= mid <= hi,
        read_placement(b, lo, mid).4 == false,
    ensures
        read_placement(b, lo, hi).4 == false,
    decreases hi - mid,
{
    if hi > mid {
        lemma_failed_stays(b, lo, mid, hi - 1);
    }
}

} // verus!
