//! One side's pieces: a bitboard per piece type.
use vstd::prelude::*;
use crate::bits::{group_sq_in, lemma_empty, lemma_only_square, lemma_single, single, sq_in, test_square};

verus! {

broadcast use group_sq_in;

/// The six bitboards of one side.
#[derive(Clone, Copy, PartialEq, Eq, Structural, Debug)]
pub struct Pieces {
    pub k: u64,
    pub q: u64,
    pub r: u64,
    pub b: u64,
    pub n: u64,
    pub p: u64,
}

/// The piece type with the given capture code. Capture codes, as stored in a
/// move, are queen 0, rook 1, bishop 2, knight 3 and pawn 4; 7 marks a square
/// with none of them.
pub open spec fn code_piece(code: u8) -> char {
    if code == 0 {
        'q'
    } else if code == 1 {
        'r'
    } else if code == 2 {
        'b'
    } else if code == 3 {
        'n'
    } else if code == 4 {
        'p'
    } else {
        ' '
    }
}

/// Two masks share no square exactly when their intersection is empty.
pub proof fn lemma_pair_disjoint(x: u64, y: u64)
    ensures
        (x & y == 0) == (forall|u: int| !(#[trigger] sq_in(x, u) && sq_in(y, u))),
{
    lemma_empty(x & y);
    assert forall|u: int| #[trigger] sq_in(x & y, u) == (sq_in(x, u) && sq_in(y, u)) by {}
    if x & y == 0 {
        assert forall|u: int| !(#[trigger] sq_in(x, u) && sq_in(y, u)) by {
            assert(!sq_in(x & y, u));
        }
    }
    if forall|u: int| !(#[trigger] sq_in(x, u) && sq_in(y, u)) {
        assert forall|u: int| !#[trigger] sq_in(x & y, u) by {
            assert(!(sq_in(x, u) && sq_in(y, u)));
        }
    }
}

impl Pieces {
    /// The bitboard of piece type `c`, or an empty one.
    pub open spec fn mask(self, c: char) -> u64 {
        if c == 'k' {
            self.k
        } else if c == 'q' {
            self.q
        } else if c == 'r' {
            self.r
        } else if c == 'b' {
            self.b
        } else if c == 'n' {
            self.n
        } else if c == 'p' {
            self.p
        } else {
            0
        }
    }

    pub open spec fn occ(self) -> u64 {
        self.k | self.q | self.r | self.b | self.n | self.p
    }

    /// The type of the piece on `s`, or ' ' for an empty square.
    pub open spec fn kind_at(self, s: int) -> char {
        if sq_in(self.k, s) {
            'k'
        } else if sq_in(self.q, s) {
            'q'
        } else if sq_in(self.r, s) {
            'r'
        } else if sq_in(self.b, s) {
            'b'
        } else if sq_in(self.n, s) {
            'n'
        } else if sq_in(self.p, s) {
            'p'
        } else {
            ' '
        }
    }

    /// No square holds two piece types, and there is one king.
    pub open spec fn wf(self) -> bool {
        &&& self.k & self.q == 0 && self.k & self.r == 0 && self.k & self.b == 0
        &&& self.k & self.n == 0 && self.k & self.p == 0
        &&& self.q & self.r == 0 && self.q & self.b == 0 && self.q & self.n == 0
        &&& self.q & self.p == 0
        &&& self.r & self.b == 0 && self.r & self.n == 0 && self.r & self.p == 0
        &&& self.b & self.n == 0 && self.b & self.p == 0
        &&& self.n & self.p == 0
        &&& single(self.k)
    }

    /// The bitboard of type `c` toggled on the squares of `m`.
    pub open spec fn toggled(self, c: char, m: u64) -> Pieces {
        if c == 'k' {
            Pieces { k: self.k ^ m, ..self }
        } else if c == 'q' {
            Pieces { q: self.q ^ m, ..self }
        } else if c == 'r' {
            Pieces { r: self.r ^ m, ..self }
        } else if c == 'b' {
            Pieces { b: self.b ^ m, ..self }
        } else if c == 'n' {
            Pieces { n: self.n ^ m, ..self }
        } else if c == 'p' {
            Pieces { p: self.p ^ m, ..self }
        } else {
            self
        }
    }

    /// Every piece but the king kept only on the squares of `keep`.
    pub open spec fn kept(self, keep: u64) -> Pieces {
        Pieces {
            k: self.k,
            q: self.q & keep,
            r: self.r & keep,
            b: self.b & keep,
            n: self.n & keep,
            p: self.p & keep,
        }
    }

    /// The capture code of what stands on the squares of `position`, looked
    /// up in the order pawn, rook, bishop, queen, knight.
    pub open spec fn code_on(self, position: u64) -> u8 {
        if self.p & position != 0 {
            4
        } else if self.r & position != 0 {
            1
        } else if self.b & position != 0 {
            2
        } else if self.q & position != 0 {
            0
        } else if self.n & position != 0 {
            3
        } else {
            7
        }
    }

    /// At most one piece type is set on square `u`.
    pub open spec fn alone(self, u: int) -> bool {
        let k = sq_in(self.k, u);
        let q = sq_in(self.q, u);
        let r = sq_in(self.r, u);
        let b = sq_in(self.b, u);
        let n = sq_in(self.n, u);
        let p = sq_in(self.p, u);
        &&& !(k && q) && !(k && r) && !(k && b) && !(k && n) && !(k && p)
        &&& !(q && r) && !(q && b) && !(q && n) && !(q && p)
        &&& !(r && b) && !(r && n) && !(r && p)
        &&& !(b && n) && !(b && p)
        &&& !(n && p)
    }

    /// Well-formedness, square by square.
    pub proof fn lemma_wf_squares(self)
        ensures
            self.wf() <==> (single(self.k) && forall|u: int|
                #![trigger self.alone(u)]
                #![trigger sq_in(self.k, u)]
                #![trigger sq_in(self.q, u)]
                #![trigger sq_in(self.r, u)]
                #![trigger sq_in(self.b, u)]
                #![trigger sq_in(self.n, u)]
                #![trigger sq_in(self.p, u)]
                self.alone(u)),
    {
        lemma_pair_disjoint(self.k, self.q);
        lemma_pair_disjoint(self.k, self.r);
        lemma_pair_disjoint(self.k, self.b);
        lemma_pair_disjoint(self.k, self.n);
        lemma_pair_disjoint(self.k, self.p);
        lemma_pair_disjoint(self.q, self.r);
        lemma_pair_disjoint(self.q, self.b);
        lemma_pair_disjoint(self.q, self.n);
        lemma_pair_disjoint(self.q, self.p);
        lemma_pair_disjoint(self.r, self.b);
        lemma_pair_disjoint(self.r, self.n);
        lemma_pair_disjoint(self.r, self.p);
        lemma_pair_disjoint(self.b, self.n);
        lemma_pair_disjoint(self.b, self.p);
        lemma_pair_disjoint(self.n, self.p);
    }

    /// Moving a piece from `s` to an empty square `t` keeps a side well formed.
    pub proof fn lemma_step_keeps_wf(self, c: char, s: int, t: int)
        requires
            self.wf(),
            0 <= s < 64,
            0 <= t < 64,
            sq_in(self.mask(c), s),
            !sq_in(self.occ(), t),
        ensures
            self.toggled(c, (1u64 << (s as u64)) | (1u64 << (t as u64))).wf(),
    {
        let m = (1u64 << (s as u64)) | (1u64 << (t as u64));
        let p2 = self.toggled(c, m);
        self.lemma_wf_squares();
        p2.lemma_wf_squares();
        assert forall|u: int| #[trigger] sq_in(m, u) == (u == s || u == t) by {
            crate::bits::lemma_sq_in_single(s as u64, u);
            crate::bits::lemma_sq_in_single(t as u64, u);
        }
        assert forall|u: int| #[trigger] p2.alone(u) by {
            assert(self.alone(u));
            assert(self.alone(s));
        }
        if c == 'k' {
            lemma_single(self.k);
            assert forall|u: int| #[trigger] sq_in(p2.k, u) == (u == t) by {
                assert(sq_in(self.k, u) == (u == s));
            }
            lemma_only_square(p2.k, t);
        }
    }

    /// Turning the pawn on `s` into a piece of type `c` on the empty square
    /// `t` keeps a side well formed.
    pub proof fn lemma_promotion_keeps_wf(self, c: char, s: int, t: int)
        requires
            self.wf(),
            0 <= s < 64,
            0 <= t < 64,
            c == 'q' || c == 'r' || c == 'b' || c == 'n',
            sq_in(self.p, s),
            !sq_in(self.occ(), t),
        ensures
            self.toggled('p', 1u64 << (s as u64)).toggled(c, 1u64 << (t as u64)).wf(),
    {
        let p2 = self.toggled('p', 1u64 << (s as u64)).toggled(c, 1u64 << (t as u64));
        self.lemma_wf_squares();
        p2.lemma_wf_squares();
        assert forall|u: int| #[trigger] p2.alone(u) by {
            assert(self.alone(u));
            crate::bits::lemma_sq_in_single(s as u64, u);
            crate::bits::lemma_sq_in_single(t as u64, u);
        }
    }

    /// Toggling squares adds no square beyond them.
    pub proof fn lemma_toggled_squares(self, c: char, m: u64)
        ensures
            forall|u: int| #[trigger] sq_in(self.toggled(c, m).occ(), u) ==> sq_in(self.occ(), u) || sq_in(m, u),
    {
    }

    /// Removing pieces leaves only squares kept or held by the king.
    pub proof fn lemma_kept_squares(self, keep: u64)
        ensures
            forall|u: int|
                #[trigger] sq_in(self.kept(keep).occ(), u) ==> sq_in(self.occ(), u) && (sq_in(keep, u) || sq_in(self.k, u)),
    {
    }

    /// Removing pieces keeps a side well formed.
    pub proof fn lemma_kept_keeps_wf(self, keep: u64)
        requires
            self.wf(),
        ensures
            self.kept(keep).wf(),
    {
        let p2 = self.kept(keep);
        self.lemma_wf_squares();
        p2.lemma_wf_squares();
        assert forall|u: int| #[trigger] p2.alone(u) by {
            assert(self.alone(u));
        }
    }

    /// White's pieces at the start of a game.
    pub fn white() -> (r: Pieces)
        ensures
            r == (Pieces { k: 0x10, q: 0x08, r: 0x81, b: 0x24, n: 0x42, p: 0xff00 }),
    {
        Pieces {
            k: 0x0000000000000010,
            q: 0x0000000000000008,
            r: 0x0000000000000081,
            b: 0x0000000000000024,
            n: 0x0000000000000042,
            p: 0x000000000000ff00,
        }
    }

    /// Black's pieces at the start of a game.
    pub fn black() -> (r: Pieces)
        ensures
            r == (Pieces {
                k: 0x1000000000000000,
                q: 0x0800000000000000,
                r: 0x8100000000000000,
                b: 0x2400000000000000,
                n: 0x4200000000000000,
                p: 0x00ff000000000000,
            }),
    {
        Pieces {
            k: 0x1000000000000000,
            q: 0x0800000000000000,
            r: 0x8100000000000000,
            b: 0x2400000000000000,
            n: 0x4200000000000000,
            p: 0x00ff000000000000,
        }
    }

    /// The type of the piece on square `s`, or ' '.
    pub fn kindOn(&self, s: u64) -> (c: char)
        requires
            s < 64,
        ensures
            c == self.kind_at(s as int),
    {
        if test_square(self.k, s) {
            'k'
        } else if test_square(self.q, s) {
            'q'
        } else if test_square(self.r, s) {
            'r'
        } else if test_square(self.b, s) {
            'b'
        } else if test_square(self.n, s) {
            'n'
        } else if test_square(self.p, s) {
            'p'
        } else {
            ' '
        }
    }

    /// Whether the bitboards are disjoint and hold one king.
    pub fn isWellFormed(&self) -> (r: bool)
        ensures
            r == self.wf(),
    {
        let k = self.k;
        let q = self.q;
        let r = self.r;
        let b = self.b;
        let n = self.n;
        let p = self.p;
        k & q == 0 && k & r == 0 && k & b == 0 && k & n == 0 && k & p == 0 && q & r == 0 && q & b == 0 && q
            & n == 0 && q & p == 0 && r & b == 0 && r & n == 0 && r & p == 0 && b & n == 0 && b & p == 0 && n
            & p == 0 && k != 0 && k & (k - 1) == 0
    }

    /// All squares this side occupies.
    pub fn occupied(&self) -> (r: u64)
        ensures
            r == self.occ(),
    {
        self.k | self.q | self.r | self.b | self.n | self.p
    }

    pub fn moveking(&mut self, piece_move: u64)
        ensures
            *final(self) == old(self).toggled('k', piece_move),
    {
        self.k = self.k ^ piece_move;
    }

    pub fn moveQueen(&mut self, piece_move: u64)
        ensures
            *final(self) == old(self).toggled('q', piece_move),
    {
        self.q = self.q ^ piece_move;
    }

    pub fn moveRook(&mut self, piece_move: u64)
        ensures
            *final(self) == old(self).toggled('r', piece_move),
    {
        self.r = self.r ^ piece_move;
    }

    pub fn moveBishop(&mut self, piece_move: u64)
        ensures
            *final(self) == old(self).toggled('b', piece_move),
    {
        self.b = self.b ^ piece_move;
    }

    pub fn moveKnight(&mut self, piece_move: u64)
        ensures
            *final(self) == old(self).toggled('n', piece_move),
    {
        self.n = self.n ^ piece_move;
    }

    pub fn movePawn(&mut self, piece_move: u64)
        ensures
            *final(self) == old(self).toggled('p', piece_move),
    {
        self.p = self.p ^ piece_move;
    }

    /// Toggles the bitboard of type `piece` on the squares of `piece_move`.
    pub fn movePiece(&mut self, piece_move: u64, piece: char)
        ensures
            *final(self) == old(self).toggled(piece, piece_move),
    {
        if piece == 'k' {
            self.moveking(piece_move);
        } else if piece == 'q' {
            self.moveQueen(piece_move);
        } else if piece == 'r' {
            self.moveRook(piece_move);
        } else if piece == 'b' {
            self.moveBishop(piece_move);
        } else if piece == 'n' {
            self.moveKnight(piece_move);
        } else if piece == 'p' {
            self.movePawn(piece_move);
        }
    }

    /// Removes every piece but the king from the squares missing in `position`.
    pub fn removePiece(&mut self, position: u64)
        ensures
            *final(self) == old(self).kept(position),
    {
        self.q = self.q & position;
        self.r = self.r & position;
        self.b = self.b & position;
        self.n = self.n & position;
        self.p = self.p & position;
    }

    /// The capture code of the piece on `position`, placed in bits 3 to 5.
    pub fn pieceType(&self, position: u64) -> (r: u8)
        ensures
            r == self.code_on(position) * 8,
    {
        if (self.p & position) != 0 {
            return 0b00100000;
        }
        if (self.r & position) != 0 {
            return 0b00001000;
        }
        if (self.b & position) != 0 {
            return 0b00010000;
        }
        if (self.q & position) != 0 {
            return 0b00000000;
        }
        if (self.n & position) != 0 {
            return 0b00011000;
        }
        0b00111000
    }
}

} // verus!
