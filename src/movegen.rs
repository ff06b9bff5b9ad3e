//! Legal move generation.
use vstd::prelude::*;
use crate::analysis::{StatusReport, attack_set, attacks_from};
use crate::bits::{group_sq_in, lemma_or_comm, lowest_square, sq_in, test_square};
use crate::board::{Board, MoveInfo};
use crate::geometry::{Reach, ahead, rank, reach_from, reach_set, reaches_exec};
use crate::pieces::Pieces;

verus! {

broadcast use group_sq_in;

proof fn type_facts(mt: u8, b: u8)
    by (bit_vector)
    requires
        b < 64,
    ensures
        mt <= 56u8 ==> (7u8 | mt) < 64u8,
        (mt & 63u8) == b ==> (mt == b || mt == (b | 64u8) || mt == (b | 128u8) || mt == (b | 192u8)),
        (b & 63u8) == b,
        ((b | 64u8) & 63u8) == b,
        ((b | 128u8) & 63u8) == b,
        ((b | 192u8) & 63u8) == b,
        (b | 64u8) >> 6u8 == 1u8,
        (b | 128u8) >> 6u8 == 2u8,
        (b | 192u8) >> 6u8 == 3u8,
        b >> 6u8 == 0u8,
{
}

proof fn distinct_types(mt: u8, c: u8)
    by (bit_vector)
    requires
        c <= 7,
    ensures
        (1u8 | ((c * 8) as u8)) != 2u8 && (1u8 | ((c * 8) as u8)) != 3u8,
        (1u8 | ((c * 8) as u8)) != 4u8 && (1u8 | ((c * 8) as u8)) != 5u8,
        (mt & 63u8) == 6u8 ==> mt != 3u8 && mt != 4u8 && mt != 5u8,
        (mt & 63u8) == (7u8 | ((c * 8) as u8)) ==> mt != 3u8 && mt != 4u8 && mt != 5u8,
        (7u8 | ((c * 8) as u8)) < 64u8,
        (mt & 63u8) == 6u8 ==> mt != 2u8,
        (mt & 63u8) == (7u8 | ((c * 8) as u8)) ==> mt != 2u8,
{
}

/// A move whose type is neither castling nor en passant.
pub open spec fn ordinary(m: MoveInfo) -> bool {
    m.moveType != 3 && m.moveType != 4 && m.moveType != 5
}

proof fn lemma_push_distinct(a: Seq<MoveInfo>, x: MoveInfo)
    requires
        a.no_duplicates(),
        forall|i: int| 0 <= i < a.len() ==> a[i] != x,
    ensures
        a.push(x).no_duplicates(),
{
    assert forall|i: int, j: int| 0 <= i < a.push(x).len() && 0 <= j < a.push(x).len() && i != j implies a.push(x)[i]
        != a.push(x)[j] by {
        if i < a.len() && j < a.len() {
            assert(a.push(x)[i] == a[i]);
            assert(a.push(x)[j] == a[j]);
        }
    }
}

/// The move type of a move to `t` that is not a pawn special: a capture with
/// the taken piece's code where an enemy piece stands, else a quiet move.
pub open spec fn plain_type(enemy: Pieces, t: int) -> u8 {
    if sq_in(enemy.occ(), t) {
        1u8 | ((enemy.code_on(1u64 << (t as u64)) * 8) as u8)
    } else {
        0
    }
}

/// Squares that must be empty for castling.
pub open spec fn castle_path(white: bool, left: bool) -> u64 {
    if white {
        if left { 0x0e } else { 0x60 }
    } else {
        if left { 0x0e00000000000000 } else { 0x6000000000000000 }
    }
}

/// Squares the king crosses or reaches when castling, which no enemy piece
/// may attack.
pub open spec fn castle_safe(white: bool, left: bool) -> u64 {
    if white {
        if left { 0x0c } else { 0x60 }
    } else {
        if left { 0x0c00000000000000 } else { 0x6000000000000000 }
    }
}

/// The rank from which a pawn of the side promotes with its next step.
pub open spec fn promotion_rank(white: bool) -> int {
    if white { 6 } else { 1 }
}

impl Board {
    /// Where a piece other than the king may go: any square not its own side's
    /// when there is no check, else a square that captures or blocks it; never
    /// the enemy king's square.
    pub open spec fn allowed(self) -> u64 {
        let rep = self.report();
        if rep.checkCount == 0 {
            !rep.selfOcc & !self.enemy().k
        } else {
            !rep.selfOcc & rep.checkMask & !self.enemy().k
        }
    }

    /// Where the king may go: next to it, not its own side's, not attacked,
    /// and not behind it on the line of a checking slider.
    pub open spec fn king_dests(self) -> u64 {
        let rep = self.report();
        reach_set(Reach::King, self.king_square(), self.occ()) & !rep.selfOcc & !rep.kingBan & !rep.enemySeen
            & !self.enemy().k
    }

    /// The king's line through `s`, on the side of `s`.
    pub open spec fn pin_ray(self, s: int) -> u64 {
        reach_set(Reach::Ray(s as u64), self.king_square(), self.occ())
    }

    /// Where a queen, rook, bishop or knight of type `c` on `s` may go. A
    /// piece pinned on a rank or file moves only along its pin line, and so
    /// does one pinned on a diagonal.
    pub open spec fn piece_dests(self, c: char, s: int) -> u64 {
        let rep = self.report();
        let hv = sq_in(rep.pinHV, s);
        let d = sq_in(rep.pinD, s);
        if hv && d {
            0
        } else if hv {
            if c == 'r' || c == 'q' {
                reach_set(Reach::Orth, s, self.occ()) & self.allowed() & rep.pinHV & self.pin_ray(s)
            } else {
                0
            }
        } else if d {
            if c == 'b' || c == 'q' {
                reach_set(Reach::Diag, s, self.occ()) & self.allowed() & rep.pinD & self.pin_ray(s)
            } else {
                0
            }
        } else {
            attack_set(c, s, self.occ(), self.st.white_to_move()) & self.allowed()
        }
    }

    /// Pin lines that a pawn on `s` may push along.
    pub open spec fn push_pin(self, s: int) -> u64 {
        let rep = self.report();
        if sq_in(rep.pinD, s) {
            0
        } else if sq_in(rep.pinHV, s) {
            rep.pinHV & self.pin_ray(s)
        } else {
            !0u64
        }
    }

    /// Pin lines that a pawn on `s` may capture along.
    pub open spec fn capture_pin(self, s: int) -> u64 {
        let rep = self.report();
        if sq_in(rep.pinHV, s) {
            0
        } else if sq_in(rep.pinD, s) {
            rep.pinD & self.pin_ray(s)
        } else {
            !0u64
        }
    }

    /// One-square pushes and captures of a pawn on `s`.
    pub open spec fn pawn_steps(self, s: int) -> u64 {
        let white = self.st.white_to_move();
        let rep = self.report();
        ((reach_set(Reach::Push(white), s, self.occ()) & self.push_pin(s)) | (reach_set(
            Reach::PawnHit(white),
            s,
            self.occ(),
        ) & rep.enemyOcc & self.capture_pin(s))) & self.allowed()
    }

    /// The two-square push of a pawn on `s`.
    pub open spec fn pawn_doubles(self, s: int) -> u64 {
        reach_set(Reach::Double(self.st.white_to_move()), s, self.occ()) & self.push_pin(s) & self.allowed()
    }

    /// Castling on the a-side (`left`) or the h-side is allowed: the right is
    /// kept, king and rook stand on their home squares, there is no check, the
    /// squares between are empty and the king crosses no attacked square.
    pub open spec fn castle_ok(self, left: bool) -> bool {
        let white = self.st.white_to_move();
        let rep = self.report();
        &&& if left { self.st.mover_left() } else { self.st.mover_right() }
        &&& rep.checkCount == 0
        &&& sq_in(self.mover().k, if white { 4 } else { 60 })
        &&& sq_in(self.mover().r, crate::board::rook_home(white, left))
        &&& self.occ() & castle_path(white, left) == 0
        &&& rep.enemySeen & castle_safe(white, left) == 0
    }

    /// The square of the pawn that may be taken en passant.
    pub open spec fn ep_target(self) -> int {
        crate::bits::lowest(self.st.ep_pawn_mask())
    }

    /// The pawn on `s` may take en passant, landing on `d`.
    pub open spec fn ep_ok(self, s: int, d: int) -> bool {
        let rep = self.report();
        let e = self.st.ep_pawn_mask();
        let es = self.ep_target();
        &&& self.st.ep_available()
        &&& crate::bits::single(e)
        &&& self.enemy().p & e == e
        &&& rank(es) == (if self.st.white_to_move() { 4int } else { 3 })
        &&& d == ahead(self.st.white_to_move(), es, 1)
        &&& 0 <= d < 64
        &&& !sq_in(self.occ(), d)
        &&& self.mover().kind_at(s) == 'p'
        &&& (s == es - 1 && es % 8 > 0) || (s == es + 1 && es % 8 < 7)
        &&& !sq_in(rep.pinD, es)
        &&& !sq_in(rep.epPin, s)
        &&& !sq_in(rep.pinHV, s)
        &&& sq_in(rep.pinD, s) ==> sq_in(rep.pinD, d) && sq_in(self.pin_ray(s), d)
        &&& rep.checkCount == 0 || sq_in(rep.checkMask, d) || sq_in(rep.checkMask, es)
    }

    /// `m` is a move of a queen, rook, bishop, knight or pawn.
    pub open spec fn piece_candidate(self, m: MoveInfo) -> bool {
        let s = m.from as int;
        let c = m.movedPiece;
        ||| (c != 'k' && c != 'p' && self.mover().kind_at(s) == c && self.emitted(s, c, self.piece_dests(c, s), 0, m))
        ||| (c == 'p' && self.mover().kind_at(s) == 'p' && if rank(s) == promotion_rank(self.st.white_to_move()) {
            self.emitted(s, 'p', self.pawn_steps(s), 6, m)
        } else {
            self.emitted(s, 'p', self.pawn_steps(s), 0, m) || self.emitted(s, 'p', self.pawn_doubles(s), 2, m)
        })
    }

    /// `m` castles (kind 3 on the a-side, 4 on the h-side), as allowed.
    pub open spec fn castle_candidate(self, m: MoveInfo) -> bool {
        &&& m.currState == self.st
        &&& m.movedPiece == 'k'
        &&& m.from == 0 && m.to == 0
        &&& (m.moveType == 3 && self.castle_ok(true)) || (m.moveType == 4 && self.castle_ok(false))
    }

    /// `m` takes en passant, as allowed.
    pub open spec fn ep_candidate(self, m: MoveInfo) -> bool {
        &&& m.currState == self.st
        &&& m.movedPiece == 'p'
        &&& m.moveType == 5
        &&& self.ep_ok(m.from as int, m.to as int)
    }

    /// `m` is one of the legal moves of this board.
    pub open spec fn produces(self, m: MoveInfo) -> bool {
        ||| self.emitted(self.king_square(), 'k', self.king_dests(), 0, m)
        ||| (self.report().checkCount < 2 && (self.piece_candidate(m) || self.castle_candidate(m)
            || self.ep_candidate(m)))
    }

    /// The set of legal moves of this board.
    pub open spec fn legal_moves(self) -> Set<MoveInfo> {
        Set::new(|m: MoveInfo| self.produces(m))
    }

    /// The moves that the piece of type `c` on `from` makes to the squares of
    /// `dests`: of the plain type (`base` 0), two-square pushes (`base` 2),
    /// or the four promotions of a pawn (`base` 6).
    pub open spec fn emitted(self, from: int, c: char, dests: u64, base: u8, m: MoveInfo) -> bool {
        &&& m.currState == self.st
        &&& m.from as int == from
        &&& m.movedPiece == c
        &&& sq_in(dests, m.to as int)
        &&& if base == 2 {
            m.moveType == 2
        } else if base == 6 {
            (m.moveType & 63) == (if sq_in(self.enemy().occ(), m.to as int) {
                7u8 | ((self.enemy().code_on(1u64 << (m.to as u64)) * 8) as u8)
            } else {
                6u8
            })
        } else {
            m.moveType == plain_type(self.enemy(), m.to as int)
        }
    }

    /// Pushes one move for each square of `dests` (four for a promotion).
    fn emit(&self, out: &mut Vec<MoveInfo>, from: u64, c: char, dests: u64, base: u8, enemy: Pieces, enemyOcc: u64)
        requires
            from < 64,
            base == 0 || base == 2 || base == 6,
            enemy == self.enemy(),
            enemyOcc == enemy.occ(),
            old(out)@.len() + 256 < usize::MAX,
            old(out)@.no_duplicates(),
            forall|i: int| 0 <= i < old(out)@.len() ==> !self.emitted(from as int, c, dests, base, #[trigger] old(out)@[i]),
        ensures
            final(out)@.no_duplicates(),
            forall|i: int| old(out)@.len() <= i < final(out)@.len() ==> ordinary(#[trigger] final(out)@[i]),
            forall|i: int| old(out)@.len() <= i < final(out)@.len() ==> ((#[trigger] final(out)@[i]).moveType == 2) == (base == 2),
            final(out)@.len() <= old(out)@.len() + 256,
            final(out)@.len() >= old(out)@.len(),
            forall|i: int| 0 <= i < old(out)@.len() ==> final(out)@[i] == old(out)@[i],
            forall|i: int|
                old(out)@.len() <= i < final(out)@.len() ==> self.emitted(from as int, c, dests, base, #[trigger] final(out)@[i]),
            forall|m: MoveInfo| self.emitted(from as int, c, dests, base, m) ==> final(out)@.contains(m),
            forall|m: MoveInfo| old(out)@.contains(m) ==> final(out)@.contains(m),
    {
        let ghost start = out@;
        let mut t: u64 = 0;
        while t < 64
            invariant
                t <= 64,
                from < 64,
                base == 0 || base == 2 || base == 6,
                enemy == self.enemy(),
                enemyOcc == enemy.occ(),
                start.len() <= out@.len() <= start.len() + 4 * t,
                start.len() + 256 < usize::MAX,
                forall|i: int| 0 <= i < start.len() ==> out@[i] == start[i],
                forall|i: int| start.len() <= i < out@.len() ==> self.emitted(from as int, c, dests, base, #[trigger] out@[i]),
                forall|m: MoveInfo| self.emitted(from as int, c, dests, base, m) && m.to < t ==> out@.contains(m),
                out@.no_duplicates(),
                forall|i: int| 0 <= i < start.len() ==> !self.emitted(from as int, c, dests, base, #[trigger] start[i]),
                forall|i: int| start.len() <= i < out@.len() ==> (#[trigger] out@[i]).to < t && ordinary(out@[i]) && (out@[i].moveType == 2) == (base == 2),
            decreases 64 - t,
        {
            if test_square(dests, t) {
                let bit = 1u64 << t;
                let taken = test_square(enemyOcc, t);
                let ghost before = out@;
                if base == 6 {
                    let b: u8 = if taken {
                        let code = enemy.pieceType(bit);
                        proof {
                            type_facts(code, 0);
                        }
                        7 | code
                    } else {
                        6
                    };
                    proof {
                        type_facts(0, b);
                    }
                    let mv0 = MoveInfo { currState: self.st, moveType: b, movedPiece: c, from: from as u8, to: t as u8 };
                    let mv1 = MoveInfo { moveType: b | 64, ..mv0 };
                    let mv2 = MoveInfo { moveType: b | 128, ..mv0 };
                    let mv3 = MoveInfo { moveType: b | 192, ..mv0 };
                    proof {
                        assert(self.emitted(from as int, c, dests, base, mv0));
                        assert(self.emitted(from as int, c, dests, base, mv1));
                        assert(self.emitted(from as int, c, dests, base, mv2));
                        assert(self.emitted(from as int, c, dests, base, mv3));
                        assert forall|i: int| 0 <= i < before.len() implies before[i] != mv0 && before[i] != mv1
                            && before[i] != mv2 && before[i] != mv3 by {
                            if i < start.len() {
                                assert(before[i] == start[i]);
                            }
                        }
                        lemma_push_distinct(before, mv0);
                        lemma_push_distinct(before.push(mv0), mv1);
                        lemma_push_distinct(before.push(mv0).push(mv1), mv2);
                        lemma_push_distinct(before.push(mv0).push(mv1).push(mv2), mv3);
                        let code = enemy.code_on(bit);
                        distinct_types(b, if taken { code } else { 0 });
                        distinct_types(b | 64, if taken { code } else { 0 });
                        distinct_types(b | 128, if taken { code } else { 0 });
                        distinct_types(b | 192, if taken { code } else { 0 });
                    }
                    out.push(mv0);
                    out.push(mv1);
                    out.push(mv2);
                    out.push(mv3);
                    proof {
                        let n = before.len() as int;
                        assert(out@[n] == mv0);
                        assert(out@[n + 1] == mv1);
                        assert(out@[n + 2] == mv2);
                        assert(out@[n + 3] == mv3);
                        assert forall|m: MoveInfo| self.emitted(from as int, c, dests, base, m) && m.to < t + 1 implies out@.contains(m) by {
                            if m.to < t {
                                assert(before.contains(m));
                                let i = choose|i: int| 0 <= i < before.len() && before[i] == m;
                                assert(out@[i] == m);
                            } else {
                                type_facts(m.moveType, b);
                                if m.moveType == b {
                                    assert(out@[n] == m);
                                } else if m.moveType == (b | 64) {
                                    assert(out@[n + 1] == m);
                                } else if m.moveType == (b | 128) {
                                    assert(out@[n + 2] == m);
                                } else {
                                    assert(out@[n + 3] == m);
                                }
                            }
                        }
                    }
                } else {
                    let ty: u8 = if base == 2 {
                        2
                    } else if taken {
                        1 | enemy.pieceType(bit)
                    } else {
                        0
                    };
                    let mv = MoveInfo { currState: self.st, moveType: ty, movedPiece: c, from: from as u8, to: t as u8 };
                    proof {
                        assert(self.emitted(from as int, c, dests, base, mv));
                        assert forall|i: int| 0 <= i < before.len() implies before[i] != mv by {
                            if i < start.len() {
                                assert(before[i] == start[i]);
                            }
                        }
                        lemma_push_distinct(before, mv);
                        distinct_types(ty, enemy.code_on(bit));
                    }
                    out.push(mv);
                    proof {
                        let n = before.len() as int;
                        assert(out@[n] == mv);
                        assert forall|m: MoveInfo| self.emitted(from as int, c, dests, base, m) && m.to < t + 1 implies out@.contains(m) by {
                            if m.to < t {
                                assert(before.contains(m));
                                let i = choose|i: int| 0 <= i < before.len() && before[i] == m;
                                assert(out@[i] == m);
                            } else {
                                assert(out@[n] == m);
                            }
                        }
                    }
                }
            }
            t = t + 1;
        }
        proof {
            assert forall|m: MoveInfo| start.contains(m) implies out@.contains(m) by {
                let i = choose|i: int| 0 <= i < start.len() && start[i] == m;
                assert(out@[i] == m);
            }
        }
    }
}


proof fn lemma_push_contains(a: Seq<MoveInfo>, x: MoveInfo)
    ensures
        forall|m: MoveInfo| a.contains(m) ==> #[trigger] a.push(x).contains(m),
        a.push(x).contains(x),
{
    assert(a.push(x)[a.len() as int] == x);
    assert forall|m: MoveInfo| a.contains(m) implies #[trigger] a.push(x).contains(m) by {
        let i = choose|i: int| 0 <= i < a.len() && a[i] == m;
        assert(a.push(x)[i] == m);
    }
}

impl Board {
    fn pieceDests(&self, rep: &StatusReport, c: char, s: u64, occ: u64, allowed: u64, king: u64) -> (d: u64)
        requires
            king < 64,
            king as int == self.king_square(),
            *rep == self.report(),
            s < 64,
            occ == self.occ(),
            allowed == self.allowed(),
        ensures
            d == self.piece_dests(c, s as int),
    {
        let hv = test_square(rep.pinHV, s);
        let dg = test_square(rep.pinD, s);
        if hv && dg {
            0
        } else if hv {
            if c == 'r' || c == 'q' {
                reach_from(Reach::Orth, s, occ) & allowed & rep.pinHV & reach_from(Reach::Ray(s), king, occ)
            } else {
                0
            }
        } else if dg {
            if c == 'b' || c == 'q' {
                reach_from(Reach::Diag, s, occ) & allowed & rep.pinD & reach_from(Reach::Ray(s), king, occ)
            } else {
                0
            }
        } else {
            attacks_from(c, s, occ, self.st.white()) & allowed
        }
    }

    fn pushPin(&self, rep: &StatusReport, s: u64, occ: u64, king: u64) -> (r: u64)
        requires
            king < 64,
            king as int == self.king_square(),
            *rep == self.report(),
            s < 64,
            occ == self.occ(),
        ensures
            r == self.push_pin(s as int),
    {
        if test_square(rep.pinD, s) {
            0
        } else if test_square(rep.pinHV, s) {
            rep.pinHV & reach_from(Reach::Ray(s), king, occ)
        } else {
            !0u64
        }
    }

    fn capturePin(&self, rep: &StatusReport, s: u64, occ: u64, king: u64) -> (r: u64)
        requires
            king < 64,
            king as int == self.king_square(),
            *rep == self.report(),
            s < 64,
            occ == self.occ(),
        ensures
            r == self.capture_pin(s as int),
    {
        if test_square(rep.pinHV, s) {
            0
        } else if test_square(rep.pinD, s) {
            rep.pinD & reach_from(Reach::Ray(s), king, occ)
        } else {
            !0u64
        }
    }

    /// Emits the moves of the own piece on `s`, if it is not the king.
    fn pieceMoves(&self, out: &mut Vec<MoveInfo>, rep: &StatusReport, s: u64, own: Pieces, enemy: Pieces, occ: u64, allowed: u64, king: u64)
        requires
            king < 64,
            king as int == self.king_square(),
            *rep == self.report(),
            s < 64,
            occ == self.occ(),
            allowed == self.allowed(),
            own == self.mover(),
            enemy == self.enemy(),
            rep.enemyOcc == enemy.occ(),
            old(out)@.len() + 600 < usize::MAX,
            old(out)@.no_duplicates(),
            forall|i: int| 0 <= i < old(out)@.len() ==> (#[trigger] old(out)@[i]).movedPiece == 'k' || old(out)@[i].from < s,
        ensures
            final(out)@.no_duplicates(),
            forall|i: int| old(out)@.len() <= i < final(out)@.len() ==> ordinary(#[trigger] final(out)@[i]) && final(out)@[i].from == s && final(out)@[i].movedPiece != 'k',
            final(out)@.len() <= old(out)@.len() + 512,
            forall|i: int| 0 <= i < old(out)@.len() ==> final(out)@[i] == old(out)@[i],
            forall|i: int|
                old(out)@.len() <= i < final(out)@.len() ==> self.piece_candidate(#[trigger] final(out)@[i]),
            forall|m: MoveInfo| self.piece_candidate(m) && m.from == s ==> final(out)@.contains(m),
            forall|m: MoveInfo| old(out)@.contains(m) ==> final(out)@.contains(m),
    {
        let white = self.st.white();
        let c = own.kindOn(s);
        if c == 'q' || c == 'r' || c == 'b' || c == 'n' {
            let d = self.pieceDests(rep, c, s, occ, allowed, king);
            self.emit(out, s, c, d, 0, enemy, rep.enemyOcc);
        } else if c == 'p' {
            let steps = ((reach_from(Reach::Push(white), s, occ) & self.pushPin(rep, s, occ, king)) | (reach_from(
                Reach::PawnHit(white),
                s,
                occ,
            ) & rep.enemyOcc & self.capturePin(rep, s, occ, king))) & allowed;
            let last: u64 = if white { 6 } else { 1 };
            if s / 8 == last {
                self.emit(out, s, 'p', steps, 6, enemy, rep.enemyOcc);
            } else {
                let ghost mid = out@;
                self.emit(out, s, 'p', steps, 0, enemy, rep.enemyOcc);
                let ghost mid2 = out@;
                proof {
                    assert forall|i: int| 0 <= i < mid2.len() implies !self.emitted(s as int, 'p', self.pawn_doubles(s as int), 2, #[trigger] mid2[i]) by {
                        if i < mid.len() {
                            assert(mid2[i] == mid[i]);
                        }
                    }
                }
                let doubles = reach_from(Reach::Double(white), s, occ) & self.pushPin(rep, s, occ, king) & allowed;
                self.emit(out, s, 'p', doubles, 2, enemy, rep.enemyOcc);
                proof {
                    assert forall|i: int| mid.len() <= i < out@.len() implies self.piece_candidate(#[trigger] out@[i]) && ordinary(out@[i]) && out@[i].from == s && out@[i].movedPiece != 'k' by {
                        if i < mid2.len() {
                            assert(out@[i] == mid2[i]);
                        }
                    }
                }
            }
        }
    }

    /// The same as `generateMoves`.
    pub fn generateMovesSafe(&self) -> (out: Vec<MoveInfo>)
        requires
            self.wf(),
        ensures
            forall|i: int| 0 <= i < out@.len() ==> self.produces(#[trigger] out@[i]),
            forall|m: MoveInfo| self.produces(m) ==> out@.contains(m),
            out@.no_duplicates(),
            self.legal_moves().finite(),
            out@.len() == self.legal_moves().len(),
            forall|i: int| 0 <= i < out@.len() ==> (#[trigger] out@[i]).on_board(),
    {
        self.generateMoves()
    }

    /// Every legal move of the side to move, each once, in no particular order.
    pub fn generateMoves(&self) -> (out: Vec<MoveInfo>)
        requires
            self.wf(),
        ensures
            forall|i: int| 0 <= i < out@.len() ==> self.produces(#[trigger] out@[i]),
            forall|m: MoveInfo| self.produces(m) ==> out@.contains(m),
            out@.no_duplicates(),
            self.legal_moves().finite(),
            out@.len() == self.legal_moves().len(),
            forall|i: int| 0 <= i < out@.len() ==> (#[trigger] out@[i]).on_board(),
    {
        let out = self.listMoves();
        proof {
            assert forall|i: int| 0 <= i < out@.len() implies (#[trigger] out@[i]).on_board() by {
                crate::laws::lemma_kinds(*self, out@[i]);
            }
            assert(out@.to_set() =~= self.legal_moves());
            out@.unique_seq_to_set();
        }
        out
    }

    /// Lists the legal moves, each once.
    #[verifier::rlimit(60)]
    fn listMoves(&self) -> (out: Vec<MoveInfo>)
        requires
            self.wf(),
        ensures
            forall|i: int| 0 <= i < out@.len() ==> self.produces(#[trigger] out@[i]),
            forall|m: MoveInfo| self.produces(m) ==> out@.contains(m),
            out@.no_duplicates(),
    {
        let rep = self.check();
        proof {
            self.lemma_scan_keeps(64);
            lemma_or_comm(self.w.occ(), self.b.occ());
        }
        let white = self.st.white();
        let (own, enemy) = if white { (self.w, self.b) } else { (self.b, self.w) };
        let occ = rep.selfOcc | rep.enemyOcc;
        let king = rep.kingIndex as u64;
        proof {
            crate::bits::lemma_single(own.k);
        }
        let mut out: Vec<MoveInfo> = Vec::new();
        let kd = reach_from(Reach::King, king, occ) & !rep.selfOcc & !rep.kingBan & !rep.enemySeen & !enemy.k;
        self.emit(&mut out, king, 'k', kd, 0, enemy, rep.enemyOcc);
        if rep.checkCount > 1 {
            return out;
        }
        let allowed = if rep.checkCount == 0 {
            !rep.selfOcc & !enemy.k
        } else {
            !rep.selfOcc & rep.checkMask & !enemy.k
        };
        let mut s: u64 = 0;
        while s < 64
            invariant
                rep == self.report(),
                king < 64,
                king as int == self.king_square(),
                s <= 64,
                occ == self.occ(),
                allowed == self.allowed(),
                own == self.mover(),
                enemy == self.enemy(),
                rep.enemyOcc == enemy.occ(),
                rep.checkCount < 2,
                out@.len() <= 256 + 512 * s,
                forall|i: int| 0 <= i < out@.len() ==> self.produces(#[trigger] out@[i]),
                forall|m: MoveInfo| self.emitted(self.king_square(), 'k', self.king_dests(), 0, m) ==> out@.contains(m),
                forall|m: MoveInfo| self.piece_candidate(m) && m.from < s ==> out@.contains(m),
                out@.no_duplicates(),
                forall|i: int| 0 <= i < out@.len() ==> ordinary(#[trigger] out@[i]),
                forall|i: int| 0 <= i < out@.len() ==> (#[trigger] out@[i]).movedPiece == 'k' || out@[i].from < s,
            decreases 64 - s,
        {
            let ghost before = out@;
            self.pieceMoves(&mut out, &rep, s, own, enemy, occ, allowed, king);
            s = s + 1;
        }
        let ghost after_pieces = out@;
        // castling
        let (kingHome, lrook, rrook): (u64, u64, u64) = if white { (4, 0, 7) } else { (60, 56, 63) };
        let (lpath, lsafe, rpath): (u64, u64, u64) = if white {
            (0x0e, 0x0c, 0x60)
        } else {
            (0x0e00000000000000, 0x0c00000000000000, 0x6000000000000000)
        };
        let canLeft = if white { self.st.castleWL() } else { self.st.castleBL() };
        let canRight = if white { self.st.castleWR() } else { self.st.castleBR() };
        if canLeft && rep.checkCount == 0 && test_square(own.k, kingHome) && test_square(own.r, lrook) && occ & lpath
            == 0 && rep.enemySeen & lsafe == 0 {
            let ghost prev = out@;
            let mv = MoveInfo { currState: self.st, moveType: 3, movedPiece: 'k', from: 0, to: 0 };
            proof {
                assert forall|i: int| 0 <= i < prev.len() implies prev[i] != mv by {
                    assert(ordinary(prev[i]));
                }
                lemma_push_distinct(prev, mv);
            }
            out.push(mv);
            proof {
                lemma_push_contains(prev, mv);
            }
        }
        let ghost after_left = out@;
        if canRight && rep.checkCount == 0 && test_square(own.k, kingHome) && test_square(own.r, rrook) && occ
            & rpath == 0 && rep.enemySeen & rpath == 0 {
            let ghost prev = out@;
            let mv = MoveInfo { currState: self.st, moveType: 4, movedPiece: 'k', from: 0, to: 0 };
            proof {
                assert forall|i: int| 0 <= i < prev.len() implies prev[i] != mv by {
                    if i < after_pieces.len() {
                        assert(prev[i] == after_pieces[i]);
                        assert(ordinary(prev[i]));
                    }
                }
                lemma_push_distinct(prev, mv);
            }
            out.push(mv);
            proof {
                lemma_push_contains(prev, mv);
            }
        }
        let ghost after_castles = out@;
        assert(forall|m: MoveInfo| after_pieces.contains(m) ==> after_left.contains(m));
        assert(forall|m: MoveInfo| after_left.contains(m) ==> after_castles.contains(m));
        assert(forall|m: MoveInfo| self.castle_candidate(m) ==> after_castles.contains(m));
        // en passant
        if self.st.enPassant() {
            let e = self.st.epSquare();
            if e != 0 && e & (e - 1) == 0 && enemy.p & e == e {
                let es = lowest_square(e);
                let fe = es % 8;
                if (white && es / 8 == 4) || (!white && es / 8 == 3) {
                    let d = if white { es + 8 } else { es - 8 };
                    let resolves = rep.checkCount == 0 || test_square(rep.checkMask, d) || test_square(rep.checkMask, es);
                    if !test_square(rep.pinD, es) && resolves && !test_square(occ, d) {
                        if fe > 0 {
                            let s = es - 1;
                            proof {
                                crate::geometry::lemma_reach_set(Reach::Ray(s), king as int, occ, d as int);
                            }
                            if own.kindOn(s) == 'p' && !test_square(rep.epPin, s) && !test_square(rep.pinHV, s) && (
                            !test_square(rep.pinD, s) || (test_square(rep.pinD, d) && reaches_exec(Reach::Ray(s), king, d, occ))) {
                                let ghost prev = out@;
                                let mv = MoveInfo { currState: self.st, moveType: 5, movedPiece: 'p', from: s as u8, to: d as u8 };
                                proof {
                                    assert forall|i: int| 0 <= i < prev.len() implies prev[i] != mv by {
                                        if i < after_pieces.len() {
                                            assert(prev[i] == after_pieces[i]);
                                            assert(ordinary(prev[i]));
                                        }
                                    }
                                    lemma_push_distinct(prev, mv);
                                }
                                out.push(mv);
                                proof {
                                    lemma_push_contains(prev, mv);
                                }
                            }
                        }
                        let ghost after_low = out@;
                        if fe < 7 {
                            let s = es + 1;
                            proof {
                                crate::geometry::lemma_reach_set(Reach::Ray(s), king as int, occ, d as int);
                            }
                            if own.kindOn(s) == 'p' && !test_square(rep.epPin, s) && !test_square(rep.pinHV, s) && (
                            !test_square(rep.pinD, s) || (test_square(rep.pinD, d) && reaches_exec(Reach::Ray(s), king, d, occ))) {
                                let ghost prev = out@;
                                let mv = MoveInfo { currState: self.st, moveType: 5, movedPiece: 'p', from: s as u8, to: d as u8 };
                                proof {
                                    assert forall|i: int| 0 <= i < prev.len() implies prev[i] != mv by {
                                        if i < after_pieces.len() {
                                            assert(prev[i] == after_pieces[i]);
                                            assert(ordinary(prev[i]));
                                        } else if i >= after_castles.len() {
                                            assert(prev[i].from == es - 1);
                                        }
                                    }
                                    lemma_push_distinct(prev, mv);
                                }
                                out.push(mv);
                                proof {
                                    lemma_push_contains(prev, mv);
                                }
                            }
                        }
                    }
                }
            }
        }
        assert(forall|m: MoveInfo| after_castles.contains(m) ==> out@.contains(m));
        assert(forall|m: MoveInfo| self.ep_candidate(m) ==> out@.contains(m));
        out
    }
}

} // verus!
