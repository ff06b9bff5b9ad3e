//! The position, the move record, and reversible application of moves.
use vstd::prelude::*;
use crate::bits::{group_sq_in, positionToSquare, sq_in};
use crate::pieces::{Pieces, code_piece};
use crate::state::{State, lemma_transitions};

verus! {

broadcast use group_sq_in;

/// One ply, with all that is needed to apply it and to take it back.
///
/// `moveType` packs the kind in bits 0 to 2 (0 quiet, 1 capture, 2 two-square
/// pawn push, 3 castling on the a-side, 4 castling on the h-side, 5 en passant,
/// 6 promotion, 7 promotion with capture), the capture code of the taken piece
/// in bits 3 to 5, and the promotion code in bits 6 and 7 (queen 0, rook 1,
/// bishop 2, knight 3). `movedPiece` is one of `k q r b n p`.
#[derive(Clone, Copy, PartialEq, Eq, Structural, Debug)]
pub struct MoveInfo {
    pub currState: State,
    pub moveType: u8,
    pub movedPiece: char,
    pub from: u8,
    pub to: u8,
}

impl MoveInfo {
    pub open spec fn kind(self) -> u8 {
        self.moveType & 7
    }

    pub open spec fn captured(self) -> u8 {
        (self.moveType >> 3u8) & 7
    }

    pub open spec fn promoted(self) -> char {
        code_piece(self.moveType >> 6u8)
    }

    pub open spec fn from_bit(self) -> u64 {
        1u64 << (self.from as u64)
    }

    pub open spec fn to_bit(self) -> u64 {
        1u64 << (self.to as u64)
    }

    /// Origin and destination lie on the board.
    pub open spec fn on_board(self) -> bool {
        self.from < 64 && self.to < 64
    }
}

proof fn code_facts(s: u16, mt: u8)
    by (bit_vector)
    ensures
        ((s ^ 1u16) >> 0u16) & 1u16 == 1u16 <==> !((s >> 0u16) & 1u16 == 1u16),
        (mt & 0b00111000u8) >> 3u8 == (mt >> 3u8) & 7u8,
        mt & 7u8 <= 7u8,
        mt >> 6u8 <= 3u8,
{
}

proof fn mask_facts(x: u64, y: u64, e: u64, s: u64)
    by (bit_vector)
    requires
        s < 64,
    ensures
        (x ^ e) ^ e == x,
        (x & e) == e ==> ((x & !e) ^ e) == x,
        (x & e) == 0 ==> (x & !e) == x,
        ((x & y) == 0 || (y & x) == 0) && (x & e) == e ==> (y & e) == 0,
        (x & (1u64 << s)) != 0 ==> (x & (1u64 << s)) == (1u64 << s),
{
}

proof fn lemma_toggle_twice(p: Pieces, c: char, m: u64)
    ensures
        p.toggled(c, m).toggled(c, m) == p,
{
    mask_facts(p.mask(c), 0, m, 0);
}

proof fn lemma_toggle_commute(p: Pieces, c1: char, m1: u64, c2: char, m2: u64)
    requires
        c1 != c2,
    ensures
        p.toggled(c1, m1).toggled(c2, m2) == p.toggled(c2, m2).toggled(c1, m1),
{
}

/// Removing and putting back the piece named by its capture code leaves a
/// side as it was.
proof fn lemma_restore_capture(p: Pieces, s: u64)
    requires
        p.wf(),
        s < 64,
    ensures
        p.kept(!(1u64 << s)).toggled(code_piece(p.code_on(1u64 << s)), 1u64 << s) == p,
{
    let t = 1u64 << s;
    mask_facts(p.q, 0, t, s);
    mask_facts(p.r, 0, t, s);
    mask_facts(p.b, 0, t, s);
    mask_facts(p.n, 0, t, s);
    mask_facts(p.p, 0, t, s);
    let c = p.code_on(t);
    if c == 4 {
        mask_facts(p.p, p.q, t, s);
        mask_facts(p.p, p.r, t, s);
        mask_facts(p.p, p.b, t, s);
        mask_facts(p.p, p.n, t, s);
    } else if c == 1 {
        mask_facts(p.r, p.q, t, s);
        mask_facts(p.r, p.b, t, s);
        mask_facts(p.r, p.n, t, s);
    } else if c == 2 {
        mask_facts(p.b, p.q, t, s);
        mask_facts(p.b, p.n, t, s);
    } else if c == 0 {
        mask_facts(p.q, p.n, t, s);
    }
}

proof fn lemma_restore_pawns(p: Pieces, e: u64)
    requires
        p.wf(),
        p.p & e == e,
    ensures
        p.kept(!e).toggled('p', e) == p,
{
    mask_facts(p.p, p.q, e, 0);
    mask_facts(p.p, p.r, e, 0);
    mask_facts(p.p, p.b, e, 0);
    mask_facts(p.p, p.n, e, 0);
    mask_facts(p.q, 0, e, 0);
    mask_facts(p.r, 0, e, 0);
    mask_facts(p.b, 0, e, 0);
    mask_facts(p.n, 0, e, 0);
}

/// The king's origin and destination when castling.
pub open spec fn castle_king_mask(white: bool, left: bool) -> u64 {
    if white {
        if left { 0x14 } else { 0x50 }
    } else {
        if left { 0x1400000000000000 } else { 0x5000000000000000 }
    }
}

/// The rook's origin and destination when castling.
pub open spec fn castle_rook_mask(white: bool, left: bool) -> u64 {
    if white {
        if left { 0x09 } else { 0xa0 }
    } else {
        if left { 0x0900000000000000 } else { 0xa000000000000000 }
    }
}

/// The home square of a rook.
pub open spec fn rook_home(white: bool, left: bool) -> int {
    if white {
        if left { 0 } else { 7 }
    } else {
        if left { 56 } else { 63 }
    }
}

/// The state after the mover moves a piece of type `c` from `from`.
pub open spec fn after_piece(st: State, c: char, from: int) -> State {
    if c == 'k' {
        st.next_king()
    } else if c == 'r' && from == rook_home(st.white_to_move(), true) {
        st.next_lrook()
    } else if c == 'r' && from == rook_home(st.white_to_move(), false) {
        st.next_rrook()
    } else {
        st.next_other()
    }
}

/// Both sides' pieces and the state register.
#[derive(Clone, Copy, PartialEq, Eq, Structural, Debug)]
pub struct Board {
    pub w: Pieces,
    pub b: Pieces,
    pub st: State,
}

impl Board {
    pub open spec fn side(self, white: bool) -> Pieces {
        if white { self.w } else { self.b }
    }

    pub open spec fn mover(self) -> Pieces {
        self.side(self.st.white_to_move())
    }

    pub open spec fn enemy(self) -> Pieces {
        self.side(!self.st.white_to_move())
    }

    /// Each side's bitboards are disjoint, each side has one king, and no
    /// square holds pieces of both sides.
    pub open spec fn wf(self) -> bool {
        self.w.wf() && self.b.wf() && self.w.occ() & self.b.occ() == 0
    }

    /// The board whose side `white` holds `own`, the other side `other`.
    pub open spec fn with_sides(white: bool, own: Pieces, other: Pieces, st: State) -> Board {
        if white {
            Board { w: own, b: other, st }
        } else {
            Board { w: other, b: own, st }
        }
    }

    /// The board after `m` is played.
    pub open spec fn applied(self, m: MoveInfo) -> Board {
        let white = self.st.white_to_move();
        let own = self.mover();
        let other = self.enemy();
        let f = m.from_bit();
        let t = m.to_bit();
        let k = m.kind();
        if k == 0 {
            Board::with_sides(white, own.toggled(m.movedPiece, f | t), other, after_piece(self.st, m.movedPiece, m.from as int))
        } else if k == 1 {
            Board::with_sides(white, own.toggled(m.movedPiece, f | t), other.kept(!t), after_piece(self.st, m.movedPiece, m.from as int))
        } else if k == 2 {
            Board::with_sides(white, own.toggled('p', f | t), other, self.st.next_push(f | t))
        } else if k == 3 || k == 4 {
            Board::with_sides(
                white,
                own.toggled('k', castle_king_mask(white, k == 3)).toggled('r', castle_rook_mask(white, k == 3)),
                other,
                self.st.next_king(),
            )
        } else if k == 5 {
            Board::with_sides(white, own.toggled('p', f | t), other.kept(!self.st.ep_pawn_mask()), self.st.next_other())
        } else if k == 6 {
            Board::with_sides(white, own.toggled('p', f).toggled(m.promoted(), t), other, self.st.next_other())
        } else {
            Board::with_sides(white, own.toggled('p', f).toggled(m.promoted(), t), other.kept(!t), self.st.next_other())
        }
    }

    /// The board after `m`, the last move played, is taken back.
    pub open spec fn undone(self, m: MoveInfo) -> Board {
        let white = !self.st.white_to_move();
        let own = self.side(white);
        let other = self.side(!white);
        let f = m.from_bit();
        let t = m.to_bit();
        let k = m.kind();
        let taken = code_piece(m.captured());
        if k == 0 || k == 2 {
            Board::with_sides(white, own.toggled(if k == 0 { m.movedPiece } else { 'p' }, f | t), other, m.currState)
        } else if k == 1 {
            Board::with_sides(white, own.toggled(m.movedPiece, f | t), other.toggled(taken, t), m.currState)
        } else if k == 3 || k == 4 {
            Board::with_sides(
                white,
                own.toggled('k', castle_king_mask(white, k == 3)).toggled('r', castle_rook_mask(white, k == 3)),
                other,
                m.currState,
            )
        } else if k == 5 {
            Board::with_sides(white, own.toggled('p', f | t), other.toggled('p', m.currState.ep_pawn_mask()), m.currState)
        } else if k == 6 {
            Board::with_sides(white, own.toggled('p', f).toggled(m.promoted(), t), other, m.currState)
        } else {
            Board::with_sides(white, own.toggled('p', f).toggled(m.promoted(), t), other.toggled(taken, t), m.currState)
        }
    }

    /// `m` was made for this board: it carries this board's state, its squares
    /// lie on the board, a capture names what stands on its destination, and
    /// an en passant capture finds the pawn it takes.
    pub open spec fn fits(self, m: MoveInfo) -> bool {
        &&& m.currState == self.st
        &&& m.on_board()
        &&& (m.kind() == 1 || m.kind() == 7) ==> self.enemy().code_on(m.to_bit()) == m.captured()
        &&& m.kind() == 5 ==> self.enemy().p & self.st.ep_pawn_mask() == self.st.ep_pawn_mask()
    }

    /// Playing a move made for a well-formed board and then taking it back
    /// gives the board back, bit for bit.
    pub proof fn lemma_round_trip(self, m: MoveInfo)
        requires
            self.wf(),
            self.fits(m),
        ensures
            self.applied(m).undone(m) == self,
    {
        let f = m.from_bit();
        let t = m.to_bit();
        lemma_transitions(self.st, f | t);
        let own = self.mover();
        let other = self.enemy();
        let k = m.kind();
        let white = self.st.white_to_move();
        if k == 0 || k == 1 || k == 2 {
            let c = if k == 2 { 'p' } else { m.movedPiece };
            lemma_toggle_twice(own, c, f | t);
            if k == 1 {
                lemma_restore_capture(other, m.to as u64);
            }
        } else if k == 3 || k == 4 {
            let o1 = own.toggled('k', castle_king_mask(white, k == 3));
            lemma_toggle_twice(o1, 'r', castle_rook_mask(white, k == 3));
            lemma_toggle_twice(own, 'k', castle_king_mask(white, k == 3));
        } else if k == 5 {
            lemma_toggle_twice(own, 'p', f | t);
            lemma_restore_pawns(other, self.st.ep_pawn_mask());
        } else {
            code_facts(0, m.moveType);
            let o1 = own.toggled('p', f);
            let o2 = o1.toggled(m.promoted(), t);
            lemma_toggle_commute(o2, 'p', f, m.promoted(), t);
            lemma_toggle_commute(o1, 'p', f, m.promoted(), t);
            lemma_toggle_twice(o1.toggled('p', f), m.promoted(), t);
            lemma_toggle_twice(own, 'p', f);
            lemma_toggle_twice(o1, m.promoted(), t);
            if k == 7 {
                lemma_restore_capture(other, m.to as u64);
            }
        }
    }

    /// The standard starting position.
    pub fn new() -> (r: Board)
        ensures
            r.w == (Pieces { k: 0x10, q: 0x08, r: 0x81, b: 0x24, n: 0x42, p: 0xff00 }),
            r.b == (Pieces {
                k: 0x1000000000000000,
                q: 0x0800000000000000,
                r: 0x8100000000000000,
                b: 0x2400000000000000,
                n: 0x4200000000000000,
                p: 0x00ff000000000000,
            }),
            r.st.white_to_move(),
            r.st.rights_wl() && r.st.rights_wr() && r.st.rights_bl() && r.st.rights_br(),
            r.st.plain(),
    {
        Board { w: Pieces::white(), b: Pieces::black(), st: State::new() }
    }

    /// Whether the board is well formed, as move generation requires.
    pub fn isWellFormed(&self) -> (r: bool)
        ensures
            r == self.wf(),
    {
        self.w.isWellFormed() && self.b.isWellFormed() && self.w.occupied() & self.b.occupied() == 0
    }

    /// Toggles the bitboard of type `piece` of the side to move.
    fn pieceMove(&mut self, piece_move: u64, piece: char)
        ensures
            *final(self) == Board::with_sides(
                old(self).st.white_to_move(),
                old(self).mover().toggled(piece, piece_move),
                old(self).enemy(),
                old(self).st,
            ),
    {
        if self.st.white() {
            self.w.movePiece(piece_move, piece);
        } else {
            self.b.movePiece(piece_move, piece);
        }
    }

    /// Removes the waiting side's pieces, but its king, off the squares
    /// missing in `keep`.
    fn removeEnemy(&mut self, keep: u64)
        ensures
            *final(self) == Board::with_sides(
                old(self).st.white_to_move(),
                old(self).mover(),
                old(self).enemy().kept(keep),
                old(self).st,
            ),
    {
        if self.st.white() {
            self.b.removePiece(keep);
        } else {
            self.w.removePiece(keep);
        }
    }

    /// Puts back a piece of the waiting side, of capture code `code`, on the
    /// squares of `piece_position`.
    fn restore_piece(&mut self, piece_position: u64, code: u8)
        ensures
            *final(self) == Board::with_sides(
                old(self).st.white_to_move(),
                old(self).mover(),
                old(self).enemy().toggled(code_piece(code), piece_position),
                old(self).st,
            ),
    {
        let piece = if code == 0 {
            'q'
        } else if code == 1 {
            'r'
        } else if code == 2 {
            'b'
        } else if code == 3 {
            'n'
        } else if code == 4 {
            'p'
        } else {
            ' '
        };
        if self.st.white() {
            self.b.movePiece(piece_position, piece);
        } else {
            self.w.movePiece(piece_position, piece);
        }
    }

    /// The state after the side to move moves a piece of type `piece` from
    /// square `from`.
    fn stateAfter(&self, piece: char, from: u8) -> (r: State)
        ensures
            r == after_piece(self.st, piece, from as int),
    {
        if piece == 'k' {
            return self.st.kingMove();
        }
        let white = self.st.white();
        if piece == 'r' && ((white && from == 0) || (!white && from == 56)) {
            return self.st.lRookMove();
        }
        if piece == 'r' && ((white && from == 7) || (!white && from == 63)) {
            return self.st.rRookMove();
        }
        self.st.otherMove()
    }

    /// Moves king and rook of the side to move for castling on the a-side
    /// (`left`) or the h-side.
    fn castle(&mut self, left: bool)
        ensures
            *final(self) == Board::with_sides(
                old(self).st.white_to_move(),
                old(self).mover().toggled('k', castle_king_mask(old(self).st.white_to_move(), left)).toggled(
                    'r',
                    castle_rook_mask(old(self).st.white_to_move(), left),
                ),
                old(self).enemy(),
                old(self).st,
            ),
    {
        let white = self.st.white();
        let (king, rook): (u64, u64) = if white {
            if left { (0x14, 0x09) } else { (0x50, 0xa0) }
        } else {
            if left { (0x1400000000000000, 0x0900000000000000) } else { (0x5000000000000000, 0xa000000000000000) }
        };
        self.pieceMove(king, 'k');
        self.pieceMove(rook, 'r');
    }

    /// Plays `applied_move` on this board.
    pub fn applyMove(&mut self, applied_move: MoveInfo)
        requires
            applied_move.on_board(),
        ensures
            *final(self) == old(self).applied(applied_move),
    {
        let m = applied_move;
        proof {
            code_facts(self.st.state, m.moveType);
        }
        let kind = m.moveType & 0b00000111;
        let f = positionToSquare(m.from);
        let t = positionToSquare(m.to);
        if kind == 0 || kind == 1 {
            let next = self.stateAfter(m.movedPiece, m.from);
            if kind == 1 {
                self.removeEnemy(!t);
            }
            self.pieceMove(f | t, m.movedPiece);
            self.st = next;
        } else if kind == 2 {
            self.pieceMove(f | t, 'p');
            self.st = self.st.pawnPush(f | t);
        } else if kind == 3 || kind == 4 {
            self.castle(kind == 3);
            self.st = self.st.kingMove();
        } else if kind == 5 {
            let ep = self.st.epSquare();
            self.removeEnemy(!ep);
            self.pieceMove(f | t, 'p');
            self.st = self.st.otherMove();
        } else {
            let promoted = if m.moveType >> 6 == 0 {
                'q'
            } else if m.moveType >> 6 == 1 {
                'r'
            } else if m.moveType >> 6 == 2 {
                'b'
            } else if m.moveType >> 6 == 3 {
                'n'
            } else {
                ' '
            };
            if kind == 7 {
                self.removeEnemy(!t);
            }
            self.pieceMove(f, 'p');
            self.pieceMove(t, promoted);
            self.st = self.st.otherMove();
        }
    }

    /// Takes back `applied_move`, the last move played on this board.
    pub fn undoMove(&mut self, applied_move: MoveInfo)
        requires
            applied_move.on_board(),
        ensures
            *final(self) == old(self).undone(applied_move),
    {
        let m = applied_move;
        self.st.state = self.st.state ^ 1;
        proof {
            code_facts(old(self).st.state, m.moveType);
        }
        let kind = m.moveType & 0b00000111;
        let f = positionToSquare(m.from);
        let t = positionToSquare(m.to);
        let taken = (m.moveType & 0b00111000) >> 3;
        if kind == 0 || kind == 1 {
            if kind == 1 {
                self.restore_piece(t, taken);
            }
            self.pieceMove(f | t, m.movedPiece);
        } else if kind == 2 {
            self.pieceMove(f | t, 'p');
        } else if kind == 3 || kind == 4 {
            self.castle(kind == 3);
        } else if kind == 5 {
            let ep = m.currState.epSquare();
            self.restore_piece(ep, 4);
            self.pieceMove(f | t, 'p');
        } else {
            let promoted = if m.moveType >> 6 == 0 {
                'q'
            } else if m.moveType >> 6 == 1 {
                'r'
            } else if m.moveType >> 6 == 2 {
                'b'
            } else if m.moveType >> 6 == 3 {
                'n'
            } else {
                ' '
            };
            if kind == 7 {
                self.restore_piece(t, taken);
            }
            self.pieceMove(f, 'p');
            self.pieceMove(t, promoted);
        }
        self.st = m.currState;
    }
}

} // verus!
