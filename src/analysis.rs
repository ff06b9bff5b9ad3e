//! Check and pin analysis for the side to move.
use vstd::prelude::*;
use crate::bits::{group_sq_in, lemma_or_comm, lowest, lowest_square, sq_in};
use crate::board::Board;
use crate::geometry::{
    Reach, blockers, count_blockers, diag_aligned, knight_step, orth_aligned, pawn_hit, rank,
    reach_from, reach_set,
};

verus! {

broadcast use group_sq_in;

/// What the side to move must respect: checks, pins and attacked squares.
#[derive(Clone, Copy, PartialEq, Eq, Structural, Debug)]
pub struct StatusReport {
    /// Number of enemy pieces giving check.
    pub checkCount: u64,
    /// Square of the king of the side to move.
    pub kingIndex: usize,
    /// Squares that capture or block a check.
    pub checkMask: u64,
    /// Squares behind the king on the line of a checking slider.
    pub kingBan: u64,
    /// Lines from the king to an enemy rook or queen with one piece between.
    pub pinHV: u64,
    /// Lines from the king to an enemy bishop or queen with one piece between.
    pub pinD: u64,
    /// Squares attacked by the enemy.
    pub enemySeen: u64,
    pub selfOcc: u64,
    pub enemyOcc: u64,
    /// Own pawns that may not take en passant: with the pawn taken, both
    /// would leave the king's rank open to an enemy rook or queen.
    pub epPin: u64,
}

/// The squares that a piece of type `c` on `s` attacks; pawns belong to
/// white when `white`.
pub open spec fn attack_set(c: char, s: int, occ: u64, white: bool) -> u64 {
    if c == 'k' {
        reach_set(Reach::King, s, occ)
    } else if c == 'q' {
        reach_set(Reach::Orth, s, occ) | reach_set(Reach::Diag, s, occ)
    } else if c == 'r' {
        reach_set(Reach::Orth, s, occ)
    } else if c == 'b' {
        reach_set(Reach::Diag, s, occ)
    } else if c == 'n' {
        reach_set(Reach::Knight, s, occ)
    } else if c == 'p' {
        reach_set(Reach::PawnHit(white), s, occ)
    } else {
        0
    }
}

/// The squares attacked by a piece of type `c` on `s`.
pub fn attacks_from(c: char, s: u64, occ: u64, white: bool) -> (r: u64)
    requires
        s < 64,
    ensures
        r == attack_set(c, s as int, occ, white),
{
    if c == 'k' {
        reach_from(Reach::King, s, occ)
    } else if c == 'q' {
        reach_from(Reach::Orth, s, occ) | reach_from(Reach::Diag, s, occ)
    } else if c == 'r' {
        reach_from(Reach::Orth, s, occ)
    } else if c == 'b' {
        reach_from(Reach::Diag, s, occ)
    } else if c == 'n' {
        reach_from(Reach::Knight, s, occ)
    } else if c == 'p' {
        reach_from(Reach::PawnHit(white), s, occ)
    } else {
        0
    }
}

impl Board {
    pub open spec fn occ(self) -> u64 {
        self.w.occ() | self.b.occ()
    }

    pub open spec fn king_square(self) -> int {
        lowest(self.mover().k)
    }

    /// The enemy piece on `s` is a rook or queen on a rank or file of the king.
    pub open spec fn orth_line(self, s: int) -> bool {
        let c = self.enemy().kind_at(s);
        (c == 'q' || c == 'r') && orth_aligned(s, self.king_square())
    }

    /// The enemy piece on `s` is a bishop or queen on a diagonal of the king.
    pub open spec fn diag_line(self, s: int) -> bool {
        let c = self.enemy().kind_at(s);
        (c == 'q' || c == 'b') && diag_aligned(s, self.king_square())
    }

    /// The enemy knight or pawn on `s` attacks the king.
    pub open spec fn leaper_check(self, s: int) -> bool {
        let c = self.enemy().kind_at(s);
        (c == 'n' && knight_step(s, self.king_square())) || (c == 'p' && pawn_hit(
            !self.st.white_to_move(),
            s,
            self.king_square(),
        ))
    }

    /// The enemy piece on `s` gives check.
    pub open spec fn gives_check(self, s: int) -> bool {
        ((self.orth_line(s) || self.diag_line(s)) && blockers(s, self.king_square(), self.occ()) == 0)
            || self.leaper_check(s)
    }

    /// The line from the king up to the square `s`, `s` included.
    pub open spec fn segment(self, s: int) -> u64 {
        reach_set(Reach::Segment(s as u64), self.king_square(), self.occ())
    }

    /// What the enemy piece on `s` adds to the report `acc`.
    pub open spec fn absorb(self, acc: StatusReport, s: int) -> StatusReport {
        let white = self.st.white_to_move();
        let c = self.enemy().kind_at(s);
        let k = self.king_square();
        let seen = acc.enemySeen | attack_set(c, s, self.occ(), !white);
        if self.orth_line(s) || self.diag_line(s) {
            let nb = blockers(s, k, self.occ());
            let seg = self.segment(s);
            if nb == 0 {
                StatusReport {
                    checkCount: (acc.checkCount + 1) as u64,
                    checkMask: acc.checkMask | seg,
                    kingBan: acc.kingBan | reach_set(Reach::Beyond(s as u64), k, self.occ()),
                    enemySeen: seen,
                    ..acc
                }
            } else if nb == 1 && self.orth_line(s) {
                StatusReport { pinHV: acc.pinHV | seg, enemySeen: seen, ..acc }
            } else if nb == 1 {
                StatusReport { pinD: acc.pinD | seg, enemySeen: seen, ..acc }
            } else if nb == 2 && self.orth_line(s) && rank(s) == rank(k) && self.st.ep_available() && seg
                & self.st.ep_pawn_mask() != 0 {
                StatusReport { epPin: acc.epPin | (seg & self.mover().p), enemySeen: seen, ..acc }
            } else {
                StatusReport { enemySeen: seen, ..acc }
            }
        } else if self.leaper_check(s) {
            StatusReport {
                checkCount: (acc.checkCount + 1) as u64,
                checkMask: acc.checkMask | (1u64 << (s as u64)),
                enemySeen: seen,
                ..acc
            }
        } else {
            StatusReport { enemySeen: seen, ..acc }
        }
    }

    /// The report with the enemy pieces on the squares below `n` taken in.
    pub open spec fn scan(self, n: int) -> StatusReport
        decreases n,
    {
        if n <= 0 {
            StatusReport {
                checkCount: 0,
                kingIndex: self.king_square() as usize,
                checkMask: 0,
                kingBan: 0,
                pinHV: 0,
                pinD: 0,
                enemySeen: 0,
                selfOcc: self.mover().occ(),
                enemyOcc: self.enemy().occ(),
                epPin: 0,
            }
        } else {
            self.absorb(self.scan(n - 1), n - 1)
        }
    }

    /// The report keeps the king square and both sides' occupancy as they are.
    pub proof fn lemma_scan_keeps(self, n: int)
        ensures
            self.scan(n).kingIndex == self.king_square() as usize,
            self.scan(n).selfOcc == self.mover().occ(),
            self.scan(n).enemyOcc == self.enemy().occ(),
        decreases n,
    {
        if n > 0 {
            self.lemma_scan_keeps(n - 1);
        }
    }

    /// The check and pin report of this board.
    pub open spec fn report(self) -> StatusReport {
        self.scan(64)
    }

    /// Takes the enemy piece on `s` into the report `acc`.
    fn absorbSquare(&self, acc: StatusReport, s: u64, king: u64, occ: u64) -> (r: StatusReport)
        requires
            self.wf(),
            s < 64,
            king as int == self.king_square(),
            occ == self.occ(),
            acc.checkCount <= s,
        ensures
            r == self.absorb(acc, s as int),
            r.checkCount <= s + 1,
    {
        let white = self.st.white();
        let (own, enemy) = if white { (self.w, self.b) } else { (self.b, self.w) };
        let c = enemy.kindOn(s);
        let seen = acc.enemySeen | attacks_from(c, s, occ, !white);
        let rs = s / 8;
        let fs = s % 8;
        let rk = king / 8;
        let fk = king % 8;
        let dr: i64 = rk as i64 - rs as i64;
        let dc: i64 = fk as i64 - fs as i64;
        let orth = (c == 'q' || c == 'r') && s != king && (dr == 0 || dc == 0);
        let diag = (c == 'q' || c == 'b') && s != king && (dr == dc || dr == -dc);
        if orth || diag {
            let nb = count_blockers(s, king, occ);
            let seg = reach_from(Reach::Segment(s), king, occ);
            if nb == 0 {
                StatusReport {
                    checkCount: acc.checkCount + 1,
                    checkMask: acc.checkMask | seg,
                    kingBan: acc.kingBan | reach_from(Reach::Beyond(s), king, occ),
                    enemySeen: seen,
                    ..acc
                }
            } else if nb == 1 && orth {
                StatusReport { pinHV: acc.pinHV | seg, enemySeen: seen, ..acc }
            } else if nb == 1 {
                StatusReport { pinD: acc.pinD | seg, enemySeen: seen, ..acc }
            } else if nb == 2 && orth && rs == rk && self.st.enPassant() && seg & self.st.epSquare() != 0 {
                StatusReport { epPin: acc.epPin | (seg & own.p), enemySeen: seen, ..acc }
            } else {
                StatusReport { enemySeen: seen, ..acc }
            }
        } else if (c == 'n' && reaches_knight(s, king)) || (c == 'p' && reaches_pawn(!white, s, king)) {
            StatusReport {
                checkCount: acc.checkCount + 1,
                checkMask: acc.checkMask | (1u64 << s),
                enemySeen: seen,
                ..acc
            }
        } else {
            StatusReport { enemySeen: seen, ..acc }
        }
    }

    /// Computes the check and pin report for the side to move.
    pub fn check(&self) -> (r: StatusReport)
        requires
            self.wf(),
        ensures
            r == self.report(),
            r.kingIndex as int == self.king_square(),
            r.selfOcc == self.mover().occ(),
            r.enemyOcc == self.enemy().occ(),
            r.checkCount == self.checkers_below(64),
            r.checkCount == 0 <==> (forall|s: int| 0 <= s < 64 ==> !self.gives_check(s)),
            forall|u: int| #[trigger] sq_in(r.checkMask, u) == self.answers_below(u, 64),
            forall|u: int| #[trigger] sq_in(r.enemySeen, u) == self.attacked_below(u, 64),
            forall|u: int| #[trigger] sq_in(r.pinHV, u) == self.pinned_below(u, 64, false),
            forall|u: int| #[trigger] sq_in(r.pinD, u) == self.pinned_below(u, 64, true),
            forall|u: int| #[trigger] sq_in(r.epPin, u) == self.ep_pinned_below(u, 64),
    {
        let white = self.st.white();
        let (own, enemy) = if white { (self.w, self.b) } else { (self.b, self.w) };
        let selfOcc = own.occupied();
        let enemyOcc = enemy.occupied();
        let occ = selfOcc | enemyOcc;
        let king = lowest_square(own.k);
        proof {
            lemma_or_comm(self.w.occ(), self.b.occ());
        }
        let mut r = StatusReport {
            checkCount: 0,
            kingIndex: king as usize,
            checkMask: 0,
            kingBan: 0,
            pinHV: 0,
            pinD: 0,
            enemySeen: 0,
            selfOcc: selfOcc,
            enemyOcc: enemyOcc,
            epPin: 0,
        };
        let mut s: u64 = 0;
        while s < 64
            invariant
                self.wf(),
                s <= 64,
                king as int == self.king_square(),
                occ == self.occ(),
                r == self.scan(s as int),
                r.checkCount <= s,
            decreases 64 - s,
        {
            r = self.absorbSquare(r, s, king, occ);
            s = s + 1;
        }
        proof {
            self.lemma_scan_keeps(64);
            crate::bits::lemma_single(own.k);
            self.lemma_check_count();
            assert forall|u: int| #[trigger] sq_in(r.checkMask, u) == self.answers_below(u, 64) by {
                self.lemma_check_mask(u);
            }
            assert forall|u: int| #[trigger] sq_in(r.enemySeen, u) == self.attacked_below(u, 64) by {
                self.lemma_enemy_seen(u);
            }
            assert forall|u: int| #[trigger] sq_in(r.pinHV, u) == self.pinned_below(u, 64, false) by {
                self.lemma_pin_lines(u);
            }
            assert forall|u: int| #[trigger] sq_in(r.pinD, u) == self.pinned_below(u, 64, true) by {
                self.lemma_pin_lines(u);
            }
            assert forall|u: int| #[trigger] sq_in(r.epPin, u) == self.ep_pinned_below(u, 64) by {
                self.lemma_ep_pins(u);
            }
        }
        r
    }
}

fn reaches_knight(s: u64, t: u64) -> (b: bool)
    requires
        s < 64,
        t < 64,
    ensures
        b == knight_step(s as int, t as int),
{
    crate::geometry::reaches_exec(Reach::Knight, s, t, 0)
}

fn reaches_pawn(white: bool, s: u64, t: u64) -> (b: bool)
    requires
        s < 64,
        t < 64,
    ensures
        b == pawn_hit(white, s as int, t as int),
{
    crate::geometry::reaches_exec(Reach::PawnHit(white), s, t, 0)
}

} // verus!
