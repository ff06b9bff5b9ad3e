//! What holds of every generated move.
use vstd::prelude::*;
use crate::bits::{group_sq_in, lemma_single, sq_in};
use crate::pieces::lemma_pair_disjoint;
use crate::analysis::attack_set;
use crate::board::{Board, MoveInfo};
use crate::geometry::{Reach, aligned, blockers, rank, step};
use crate::movegen::{castle_path, castle_safe};

verus! {

broadcast use {group_sq_in, crate::geometry::lemma_reach_set};

proof fn move_type_facts(mt: u8, c: u8)
    by (bit_vector)
    requires
        c <= 7,
    ensures
        (1u8 | ((c * 8) as u8)) & 7u8 == 1u8,
        ((1u8 | ((c * 8) as u8)) >> 3u8) & 7u8 == c,
        (mt & 63u8) == 6u8 ==> mt & 7u8 == 6u8,
        (mt & 63u8) == (7u8 | ((c * 8) as u8)) ==> mt & 7u8 == 7u8 && (mt >> 3u8) & 7u8 == c,
        0u8 & 7u8 == 0u8,
        2u8 & 7u8 == 2u8,
        3u8 & 7u8 == 3u8,
        4u8 & 7u8 == 4u8,
        5u8 & 7u8 == 5u8,
        mt >> 6u8 <= 3u8,
        mt & 7u8 <= 7u8,
{
}

proof fn castle_constants()
    by (bit_vector)
    ensures
        0x14u64 == (1u64 << 4u64) | (1u64 << 2u64),
        0x09u64 == (1u64 << 0u64) | (1u64 << 3u64),
        0x50u64 == (1u64 << 4u64) | (1u64 << 6u64),
        0xa0u64 == (1u64 << 7u64) | (1u64 << 5u64),
        0x1400000000000000u64 == (1u64 << 60u64) | (1u64 << 58u64),
        0x0900000000000000u64 == (1u64 << 56u64) | (1u64 << 59u64),
        0x5000000000000000u64 == (1u64 << 60u64) | (1u64 << 62u64),
        0xa000000000000000u64 == (1u64 << 63u64) | (1u64 << 61u64),
        0x0eu64 == (1u64 << 1u64) | (1u64 << 2u64) | (1u64 << 3u64),
        0x60u64 == (1u64 << 5u64) | (1u64 << 6u64),
        0x0e00000000000000u64 == (1u64 << 57u64) | (1u64 << 58u64) | (1u64 << 59u64),
        0x6000000000000000u64 == (1u64 << 61u64) | (1u64 << 62u64),
{
}

/// The kind of a generated move tells how it was generated; its squares lie
/// on the board.
pub proof fn lemma_kinds(b: Board, m: MoveInfo)
    requires
        b.wf(),
        b.produces(m),
    ensures
        m.on_board(),
        m.currState == b.st,
        m.kind() == 3 || m.kind() == 4 ==> b.castle_candidate(m),
        m.kind() == 5 ==> b.ep_candidate(m),
        m.kind() == 1 || m.kind() == 7 ==> b.enemy().code_on(m.to_bit()) == m.captured(),
        b.castle_candidate(m) ==> m.kind() == 3 || m.kind() == 4,
        b.ep_candidate(m) ==> m.kind() == 5,
        b.emitted(b.king_square(), 'k', b.king_dests(), 0, m) ==> m.kind() == 0 || m.kind() == 1,
        m.kind() == 6 || m.kind() == 7 ==> m.movedPiece == 'p' && b.mover().kind_at(m.from as int) == 'p',
        m.kind() <= 2 ==> b.mover().kind_at(m.from as int) == m.movedPiece,
        m.kind() == 2 ==> m.movedPiece == 'p',
        m.movedPiece == 'p' && (m.kind() == 6 || m.kind() == 7) ==> b.piece_candidate(m) && rank(m.from as int)
            == crate::movegen::promotion_rank(b.st.white_to_move()),
        m.kind() == 0 || m.kind() == 6 ==> !sq_in(b.enemy().occ(), m.to as int),
        m.kind() == 2 || m.kind() == 5 ==> !sq_in(b.occ(), m.to as int),
        m.kind() <= 2 || m.kind() >= 5 ==> !sq_in(b.enemy().k, m.to as int),
{
    lemma_single(b.mover().k);
    let c = b.enemy().code_on(m.to_bit());
    move_type_facts(m.moveType, c);
}

impl Board {
    /// The number of enemy pieces on the squares below `n` that give check.
    pub open spec fn checkers_below(self, n: int) -> int
        decreases n,
    {
        if n <= 0 {
            0
        } else {
            self.checkers_below(n - 1) + if self.gives_check(n - 1) { 1int } else { 0 }
        }
    }

    proof fn lemma_scan_count(self, n: int)
        requires
            0 <= n <= 64,
        ensures
            self.scan(n).checkCount == self.checkers_below(n),
            self.checkers_below(n) <= n,
            self.checkers_below(n) == 0 <==> (forall|s: int| 0 <= s < n ==> !self.gives_check(s)),
        decreases n,
    {
        if n > 0 {
            self.lemma_scan_count(n - 1);
        }
    }

    /// The squares the enemy piece on `s` attacks.
    pub open spec fn enemy_attacks(self, s: int) -> u64 {
        attack_set(self.enemy().kind_at(s), s, self.occ(), !self.st.white_to_move())
    }

    /// An enemy piece on a square below `n` attacks `t`.
    pub open spec fn attacked_below(self, t: int, n: int) -> bool {
        exists|s: int| 0 <= s < n && #[trigger] sq_in(self.enemy_attacks(s), t)
    }

    proof fn lemma_seen_below(self, t: int, n: int)
        requires
            0 <= n <= 64,
        ensures
            sq_in(self.scan(n).enemySeen, t) == self.attacked_below(t, n),
        decreases n,
    {
        if n > 0 {
            self.lemma_seen_below(t, n - 1);
            let a = self.enemy_attacks(n - 1);
            if sq_in(a, t) {
                assert(self.attacked_below(t, n));
            }
            if self.attacked_below(t, n) && !sq_in(a, t) {
                let s = choose|s: int| 0 <= s < n && #[trigger] sq_in(self.enemy_attacks(s), t);
                assert(s < n - 1);
                assert(self.attacked_below(t, n - 1));
            }
        }
    }

    /// The squares the report marks as seen by the enemy are exactly the
    /// squares some enemy piece attacks.
    pub proof fn lemma_enemy_seen(self, t: int)
        ensures
            sq_in(self.report().enemySeen, t) == self.attacked_below(t, 64),
    {
        self.lemma_seen_below(t, 64);
    }

    /// The enemy slider on `s` pins one piece to the king, along a rank or
    /// file (`diag` false) or a diagonal.
    pub open spec fn pinner(self, s: int, diag: bool) -> bool {
        (if diag { self.diag_line(s) } else { self.orth_line(s) }) && blockers(s, self.king_square(), self.occ()) == 1
    }

    /// Some enemy slider on a square below `n` pins along a line through `u`.
    pub open spec fn pinned_below(self, u: int, n: int, diag: bool) -> bool {
        exists|s: int| 0 <= s < n && #[trigger] self.pinner(s, diag) && sq_in(self.segment(s), u)
    }

    #[verifier::rlimit(40)]
    proof fn lemma_pins_below(self, u: int, n: int)
        requires
            0 <= n <= 64,
        ensures
            sq_in(self.scan(n).pinHV, u) == self.pinned_below(u, n, false),
            sq_in(self.scan(n).pinD, u) == self.pinned_below(u, n, true),
        decreases n,
    {
        if n > 0 {
            self.lemma_pins_below(u, n - 1);
            let s0 = n - 1;
            if self.pinner(s0, false) && sq_in(self.segment(s0), u) {
                assert(self.pinned_below(u, n, false));
            }
            if self.pinner(s0, true) && sq_in(self.segment(s0), u) {
                assert(self.pinned_below(u, n, true));
            }
            if self.pinned_below(u, n, false) && !(self.pinner(s0, false) && sq_in(self.segment(s0), u)) {
                let s = choose|s: int| 0 <= s < n && #[trigger] self.pinner(s, false) && sq_in(self.segment(s), u);
                assert(self.pinned_below(u, n - 1, false));
            }
            if self.pinned_below(u, n, true) && !(self.pinner(s0, true) && sq_in(self.segment(s0), u)) {
                let s = choose|s: int| 0 <= s < n && #[trigger] self.pinner(s, true) && sq_in(self.segment(s), u);
                assert(self.pinned_below(u, n - 1, true));
            }
        }
    }

    /// The pin lines of the report are the lines from the king up to an enemy
    /// slider with exactly one piece between them.
    pub proof fn lemma_pin_lines(self, u: int)
        ensures
            sq_in(self.report().pinHV, u) == self.pinned_below(u, 64, false),
            sq_in(self.report().pinD, u) == self.pinned_below(u, 64, true),
    {
        self.lemma_pins_below(u, 64);
    }

    /// The enemy rook or queen on `s` stands on the king's rank with exactly
    /// two pieces between, one of them the pawn that may be taken en passant:
    /// taking it would leave the rank open.
    pub open spec fn ep_pinner(self, s: int) -> bool {
        &&& self.orth_line(s)
        &&& blockers(s, self.king_square(), self.occ()) == 2
        &&& rank(s) == rank(self.king_square())
        &&& self.st.ep_available()
        &&& self.segment(s) & self.st.ep_pawn_mask() != 0
    }

    /// An own pawn on `u` stands between the king and an enemy rook or queen
    /// on a square below `n` as `ep_pinner` describes.
    pub open spec fn ep_pinned_below(self, u: int, n: int) -> bool {
        exists|s: int| 0 <= s < n && #[trigger] self.ep_pinner(s) && sq_in(self.segment(s) & self.mover().p, u)
    }

    proof fn lemma_ep_pins_below(self, u: int, n: int)
        requires
            0 <= n <= 64,
        ensures
            sq_in(self.scan(n).epPin, u) == self.ep_pinned_below(u, n),
        decreases n,
    {
        if n > 0 {
            self.lemma_ep_pins_below(u, n - 1);
            let s0 = n - 1;
            if self.ep_pinner(s0) && sq_in(self.segment(s0) & self.mover().p, u) {
                assert(self.ep_pinned_below(u, n));
            }
            if self.ep_pinned_below(u, n) && !(self.ep_pinner(s0) && sq_in(self.segment(s0) & self.mover().p, u)) {
                let s = choose|s: int| 0 <= s < n && #[trigger] self.ep_pinner(s) && sq_in(self.segment(s) & self.mover().p, u);
                assert(self.ep_pinned_below(u, n - 1));
            }
        }
    }

    /// The en passant pin mask of the report holds exactly the own pawns
    /// that `ep_pinner` describes.
    pub proof fn lemma_ep_pins(self, u: int)
        ensures
            sq_in(self.report().epPin, u) == self.ep_pinned_below(u, 64),
    {
        self.lemma_ep_pins_below(u, 64);
    }

    /// When the pawn that may be taken en passant and an own pawn beside it
    /// are the only pieces between the king and an enemy rook or queen on the
    /// king's rank, that own pawn does not take en passant.
    pub proof fn lemma_ep_rank_pin(self, m: MoveInfo, s: int)
        requires
            self.wf(),
            self.produces(m),
            0 <= s < 64,
            self.orth_line(s),
            rank(s) == rank(self.king_square()),
            blockers(s, self.king_square(), self.occ()) == 2,
            sq_in(self.segment(s), self.ep_target()),
            sq_in(self.segment(s), m.from as int),
            m.movedPiece == 'p',
        ensures
            m.kind() != 5,
    {
        lemma_kinds(self, m);
        if m.kind() == 5 {
            crate::bits::lemma_single(self.st.ep_pawn_mask());
            crate::bits::lemma_sq_in_zero(self.ep_target());
            assert(sq_in(self.segment(s) & self.st.ep_pawn_mask(), self.ep_target()));
            assert(self.ep_pinner(s));
            assert(sq_in(self.segment(s) & self.mover().p, m.from as int));
            assert(self.ep_pinned_below(m.from as int, 64));
            self.lemma_ep_pins(m.from as int);
        }
    }

    /// A pinned knight does not move.
    pub proof fn lemma_pinned_knight(self, m: MoveInfo)
        requires
            self.wf(),
            self.produces(m),
            m.movedPiece == 'n',
        ensures
            !self.pinned_below(m.from as int, 64, false),
            !self.pinned_below(m.from as int, 64, true),
    {
        lemma_kinds(self, m);
        self.lemma_pin_lines(m.from as int);
    }

    /// Square `u` captures the checking piece on `s` or blocks its line.
    pub open spec fn answers_check(self, s: int, u: int) -> bool {
        &&& self.gives_check(s)
        &&& if self.orth_line(s) || self.diag_line(s) {
            sq_in(self.segment(s), u)
        } else {
            u == s
        }
    }

    /// Square `u` answers the check of some enemy piece on a square below `n`.
    pub open spec fn answers_below(self, u: int, n: int) -> bool {
        exists|s: int| 0 <= s < n && #[trigger] self.answers_check(s, u)
    }

    proof fn lemma_check_mask_below(self, u: int, n: int)
        requires
            0 <= n <= 64,
        ensures
            sq_in(self.scan(n).checkMask, u) == self.answers_below(u, n),
        decreases n,
    {
        if n > 0 {
            self.lemma_check_mask_below(u, n - 1);
            let s0 = n - 1;
            crate::bits::lemma_sq_in_single(s0 as u64, u);
            if self.answers_check(s0, u) {
                assert(self.answers_below(u, n));
            }
            if self.answers_below(u, n) && !self.answers_check(s0, u) {
                let s = choose|s: int| 0 <= s < n && #[trigger] self.answers_check(s, u);
                assert(self.answers_below(u, n - 1));
            }
        }
    }

    /// The check mask holds the checking pieces and the squares between a
    /// checking slider and the king.
    pub proof fn lemma_check_mask(self, u: int)
        ensures
            sq_in(self.report().checkMask, u) == self.answers_below(u, 64),
    {
        self.lemma_check_mask_below(u, 64);
    }

    /// Out of check, a piece other than the king moves to a square that
    /// captures the checking piece or blocks its line; en passant may take
    /// the checking pawn instead.
    pub proof fn lemma_check_answered(self, m: MoveInfo)
        requires
            self.wf(),
            self.produces(m),
            self.report().checkCount > 0,
            m.movedPiece != 'k',
        ensures
            m.kind() != 5 ==> self.answers_below(m.to as int, 64),
            m.kind() == 5 ==> self.answers_below(m.to as int, 64) || self.answers_below(self.ep_target(), 64),
    {
        lemma_kinds(self, m);
        self.lemma_check_mask(m.to as int);
        self.lemma_check_mask(self.ep_target());
    }

    /// The report counts the enemy pieces giving check; with no legal move,
    /// a count of zero is stalemate and any other count is checkmate.
    pub proof fn lemma_check_count(self)
        ensures
            self.report().checkCount == self.checkers_below(64),
            self.report().checkCount == 0 <==> (forall|s: int| 0 <= s < 64 ==> !self.gives_check(s)),
    {
        self.lemma_scan_count(64);
    }

    /// Playing a generated move and taking it back gives the board back, bit
    /// for bit.
    pub proof fn lemma_generated_round_trip(self, m: MoveInfo)
        requires
            self.wf(),
            self.produces(m),
        ensures
            self.applied(m).undone(m) == self,
    {
        lemma_kinds(self, m);
        self.lemma_round_trip(m);
    }

    /// Playing a generated move keeps the board well formed.
    pub proof fn lemma_keeps_wf(self, m: MoveInfo)
        requires
            self.wf(),
            self.produces(m),
        ensures
            self.applied(m).wf(),
    {
        lemma_kinds(self, m);
        self.lemma_scan_keeps(64);
        let own = self.mover();
        let other = self.enemy();
        let white = self.st.white_to_move();
        let s = m.from as int;
        let t = m.to as int;
        let f = m.from_bit();
        let tb = m.to_bit();
        other.lemma_kept_keeps_wf(!tb);
        other.lemma_kept_keeps_wf(!self.st.ep_pawn_mask());
        other.lemma_kept_squares(!tb);
        other.lemma_kept_squares(!self.st.ep_pawn_mask());
        assert(self.occ() == own.occ() | other.occ()) by {
            crate::bits::lemma_or_comm(self.w.occ(), self.b.occ());
        }
        lemma_pair_disjoint(self.w.occ(), self.b.occ());
        lemma_pair_disjoint(own.occ(), other.occ());
        let after = self.applied(m);
        let own2 = after.side(white);
        let other2 = after.side(!white);
        let fresh: u64;
        if m.kind() == 3 || m.kind() == 4 {
            castle_constants();
            move_type_facts(m.moveType, 0);
            let left = m.kind() == 3;
            assert(self.castle_ok(left));
            assert(self.occ() & crate::movegen::castle_path(white, left) == 0);
            let (k0, k1, r0, r1): (int, int, int, int) = if white {
                if left { (4, 2, 0, 3) } else { (4, 6, 7, 5) }
            } else {
                if left { (60, 58, 56, 59) } else { (60, 62, 63, 61) }
            };
            crate::bits::lemma_sq_in_zero(k1);
            crate::bits::lemma_sq_in_zero(r1);
            assert(!sq_in(self.occ() & crate::movegen::castle_path(white, left), k1));
            own.lemma_step_keeps_wf('k', k0, k1);
            let km = crate::board::castle_king_mask(white, left);
            let rm = crate::board::castle_rook_mask(white, left);
            let p1 = own.toggled('k', km);
            assert(!sq_in(self.occ() & crate::movegen::castle_path(white, left), r1));
            crate::bits::lemma_sq_in_single(k0 as u64, r1);
            crate::bits::lemma_sq_in_single(k1 as u64, r1);
            p1.lemma_step_keeps_wf('r', r0, r1);
            own.lemma_toggled_squares('k', km);
            p1.lemma_toggled_squares('r', rm);
            fresh = km | rm;
            assert forall|u: int| sq_in(fresh, u) implies !#[trigger] sq_in(other.occ(), u) by {
                crate::bits::lemma_sq_in_single(k0 as u64, u);
                crate::bits::lemma_sq_in_single(k1 as u64, u);
                crate::bits::lemma_sq_in_single(r0 as u64, u);
                crate::bits::lemma_sq_in_single(r1 as u64, u);
                crate::bits::lemma_sq_in_zero(u);
                if u == k1 || u == r1 {
                    assert(!sq_in(self.occ() & crate::movegen::castle_path(white, left), u));
                }
            }
        } else if m.kind() == 6 || m.kind() == 7 {
            move_type_facts(m.moveType, 0);
            assert(sq_in(own.p, s));
            own.lemma_promotion_keeps_wf(m.promoted(), s, t);
            let p1 = own.toggled('p', f);
            own.lemma_toggled_squares('p', f);
            p1.lemma_toggled_squares(m.promoted(), tb);
            fresh = tb;
        } else {
            move_type_facts(m.moveType, 0);
            let c = if m.kind() == 2 || m.kind() == 5 { 'p' } else { m.movedPiece };
            if self.emitted(self.king_square(), 'k', self.king_dests(), 0, m) {
                lemma_single(own.k);
            }
            assert(sq_in(own.mask(c), s));
            assert(!sq_in(own.occ(), t));
            own.lemma_step_keeps_wf(c, s, t);
            own.lemma_toggled_squares(c, f | tb);
            fresh = tb;
        }
        assert forall|u: int| #[trigger] sq_in(own2.occ(), u) implies sq_in(own.occ(), u) || sq_in(fresh, u) by {
            crate::bits::lemma_sq_in_single(m.to as u64, u);
            crate::bits::lemma_sq_in_single(m.from as u64, u);
        }
        assert forall|u: int| #[trigger] sq_in(other2.occ(), u) implies sq_in(other.occ(), u) && !sq_in(fresh, u) by {
            crate::bits::lemma_sq_in_single(m.to as u64, u);
        }
        assert forall|u: int| !(#[trigger] sq_in(own2.occ(), u) && sq_in(other2.occ(), u)) by {
            if sq_in(own2.occ(), u) && sq_in(other2.occ(), u) {
                assert(sq_in(other.occ(), u));
                assert(!(sq_in(own.occ(), u) && sq_in(other.occ(), u)));
            }
        }
        lemma_pair_disjoint(after.w.occ(), after.b.occ());
    }

    /// En passant is available after a two-square pawn push, and after no
    /// other move.
    pub proof fn lemma_en_passant_flag(self, m: MoveInfo)
        ensures
            self.applied(m).st.ep_available() == (m.kind() == 2),
    {
        crate::state::lemma_transitions(self.st, m.from_bit() | m.to_bit());
    }

    /// In double check only the king moves.
    pub proof fn lemma_double_check(self, m: MoveInfo)
        requires
            self.wf(),
            self.report().checkCount >= 2,
            self.produces(m),
        ensures
            m.movedPiece == 'k',
            m.from as int == self.king_square(),
            m.kind() == 0 || m.kind() == 1,
    {
        lemma_kinds(self, m);
    }

    /// A piece on a pin line moves only along that line, staying on its
    /// side of the king.
    pub proof fn lemma_pins_hold(self, m: MoveInfo)
        requires
            self.wf(),
            self.produces(m),
            m.movedPiece != 'k',
        ensures
            sq_in(self.report().pinHV, m.from as int) ==> sq_in(self.report().pinHV, m.to as int),
            sq_in(self.report().pinD, m.from as int) ==> sq_in(self.report().pinD, m.to as int),
            sq_in(self.report().pinHV, m.from as int) || sq_in(self.report().pinD, m.from as int) ==> sq_in(
                self.pin_ray(m.from as int),
                m.to as int,
            ),
    {
        lemma_kinds(self, m);
    }

    /// A piece that alone stands between the king and an enemy slider moves
    /// only along the line between them, on the slider's side of the king,
    /// and within the pin lines.
    pub proof fn lemma_pin_axis(self, m: MoveInfo, p: int, diag: bool)
        requires
            self.wf(),
            self.produces(m),
            m.movedPiece != 'k',
            0 <= p < 64,
            self.pinner(p, diag),
            sq_in(self.segment(p), m.from as int),
        ensures
            aligned(self.king_square(), m.to as int),
            step(self.king_square(), m.to as int) == step(self.king_square(), p),
            sq_in(if diag { self.report().pinD } else { self.report().pinHV }, m.to as int),
    {
        lemma_kinds(self, m);
        assert(self.pinned_below(m.from as int, 64, diag));
        self.lemma_pin_lines(m.from as int);
        self.lemma_pins_hold(m);
        crate::geometry::lemma_reach_set(Reach::Segment(p as u64), self.king_square(), self.occ(), m.from as int);
        crate::geometry::lemma_reach_set(Reach::Ray(m.from as u64), self.king_square(), self.occ(), m.to as int);
    }

    /// A castling move is generated only with the right kept, out of check,
    /// with the squares between king and rook empty and no square the king
    /// crosses or reaches attacked.
    pub proof fn lemma_castling_legal(self, m: MoveInfo)
        requires
            self.wf(),
            self.produces(m),
            m.kind() == 3 || m.kind() == 4,
        ensures
            if m.kind() == 3 { self.st.mover_left() } else { self.st.mover_right() },
            self.report().checkCount == 0,
            forall|u: int|
                sq_in(castle_path(self.st.white_to_move(), m.kind() == 3), u) ==> !#[trigger] sq_in(self.occ(), u),
            forall|u: int|
                sq_in(castle_safe(self.st.white_to_move(), m.kind() == 3), u) ==> !#[trigger] self.attacked_below(u, 64),
    {
        lemma_kinds(self, m);
        move_type_facts(m.moveType, 0);
        let left = m.kind() == 3;
        let white = self.st.white_to_move();
        assert(self.castle_ok(left));
        assert forall|u: int| sq_in(castle_path(white, left), u) implies !#[trigger] sq_in(self.occ(), u) by {
            crate::bits::lemma_sq_in_zero(u);
            assert(!sq_in(self.occ() & castle_path(white, left), u));
        }
        assert forall|u: int| sq_in(castle_safe(white, left), u) implies !#[trigger] self.attacked_below(u, 64) by {
            crate::bits::lemma_sq_in_zero(u);
            assert(!sq_in(self.report().enemySeen & castle_safe(white, left), u));
            self.lemma_enemy_seen(u);
        }
    }

    /// A generated promotion comes with the three others on the same squares.
    pub proof fn lemma_promotions_complete(self, m: MoveInfo, p: u8)
        requires
            self.wf(),
            self.produces(m),
            m.movedPiece == 'p',
            m.kind() == 6 || m.kind() == 7,
            p < 4,
        ensures
            self.produces(MoveInfo { moveType: (m.moveType & 63) | (p << 6), ..m }),
    {
        lemma_kinds(self, m);
        let mt = m.moveType;
        assert(((mt & 63u8) | (p << 6u8)) & 63u8 == mt & 63u8) by (bit_vector)
            requires
                p < 4;
    }

    /// Two generated promotions of one pawn to one square differ in the
    /// promoted piece alone; as the list holds no move twice, it holds
    /// exactly the four of them.
    pub proof fn lemma_promotions_only_four(self, m: MoveInfo, n: MoveInfo)
        requires
            self.wf(),
            self.produces(m),
            self.produces(n),
            m.movedPiece == 'p' && n.movedPiece == 'p',
            m.kind() == 6 || m.kind() == 7,
            n.kind() == 6 || n.kind() == 7,
            m.from == n.from && m.to == n.to,
        ensures
            n == (MoveInfo { moveType: (m.moveType & 63) | ((n.moveType >> 6) << 6), ..m }),
    {
        lemma_kinds(self, m);
        lemma_kinds(self, n);
        let mt = m.moveType;
        let nt = n.moveType;
        assert(nt & 63u8 == mt & 63u8 ==> nt == (mt & 63u8) | ((nt >> 6u8) << 6u8)) by (bit_vector);
    }

    /// A pawn that reaches the last rank promotes.
    pub proof fn lemma_last_rank_promotes(self, m: MoveInfo)
        requires
            self.wf(),
            self.produces(m),
            m.movedPiece == 'p',
            rank(m.to as int) == (if self.st.white_to_move() { 7int } else { 0 }),
        ensures
            m.kind() == 6 || m.kind() == 7,
    {
        lemma_kinds(self, m);
        let s = m.from as int;
        let t = m.to as int;
        let white = self.st.white_to_move();
        if self.ep_candidate(m) {
            let es = self.ep_target();
            assert(rank(t) == rank(es) + (if white { 1int } else { -1 }));
        } else if self.piece_candidate(m) {
            if rank(s) == crate::movegen::promotion_rank(white) {
                move_type_facts(m.moveType, self.enemy().code_on(m.to_bit()));
            } else if self.emitted(s, 'p', self.pawn_steps(s), 0, m) {
                assert(sq_in(self.pawn_steps(s), t));
                assert(rank(t) == rank(s) + (if white { 1int } else { -1 }));
            } else {
                assert(sq_in(self.pawn_doubles(s), t));
                assert(rank(t) == rank(s) + (if white { 2int } else { -2 }));
            }
        }
    }
}

} // verus!
