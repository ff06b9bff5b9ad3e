//! The packed position state: side to move, castling rights, en passant.
use vstd::prelude::*;

verus! {

/// Bit `i` of a 16-bit register.
pub open spec fn bit16(x: u16, i: u16) -> bool {
    (x >> i) & 1u16 == 1u16
}

/// Bit 0: white to move. Bits 1 and 2: black may castle on the a-side and on
/// the h-side; bits 3 and 4: the same for white. Bit 5: the last move was a
/// two-square pawn push, whose file is the one bit set in bits 8 to 15.
#[derive(Clone, Copy, PartialEq, Eq, Structural, Debug)]
pub struct State {
    pub state: u16,
}

impl State {
    pub open spec fn white_to_move(self) -> bool {
        bit16(self.state, 0)
    }

    pub open spec fn rights_bl(self) -> bool {
        bit16(self.state, 1)
    }

    pub open spec fn rights_br(self) -> bool {
        bit16(self.state, 2)
    }

    pub open spec fn rights_wl(self) -> bool {
        bit16(self.state, 3)
    }

    pub open spec fn rights_wr(self) -> bool {
        bit16(self.state, 4)
    }

    pub open spec fn ep_available(self) -> bool {
        bit16(self.state, 5)
    }

    /// The en passant file as a one-bit mask over files a (bit 0) to h.
    pub open spec fn ep_files(self) -> u16 {
        self.state >> 8
    }

    /// Only the five low bits may be set: no en passant information.
    pub open spec fn plain(self) -> bool {
        self.state >> 5 == 0
    }

    /// The mover's a-side right (white's when white moves).
    pub open spec fn mover_left(self) -> bool {
        if self.white_to_move() { self.rights_wl() } else { self.rights_bl() }
    }

    pub open spec fn mover_right(self) -> bool {
        if self.white_to_move() { self.rights_wr() } else { self.rights_br() }
    }

    /// `next` hands the move to the other side and keeps the rights that
    /// `keep_left` and `keep_right` allow to the mover, and all of the other
    /// side's.
    pub open spec fn passes_to(self, next: State, keep_left: bool, keep_right: bool) -> bool {
        &&& next.white_to_move() == !self.white_to_move()
        &&& next.rights_wl() == (self.rights_wl() && (keep_left || !self.white_to_move()))
        &&& next.rights_wr() == (self.rights_wr() && (keep_right || !self.white_to_move()))
        &&& next.rights_bl() == (self.rights_bl() && (keep_left || self.white_to_move()))
        &&& next.rights_br() == (self.rights_br() && (keep_right || self.white_to_move()))
    }

    /// The square of the pawn that has just made a two-square push, as a mask.
    pub open spec fn ep_pawn_mask(self) -> u64 {
        if self.white_to_move() {
            (self.ep_files() as u64) << 32u64
        } else {
            (self.ep_files() as u64) << 24u64
        }
    }

    pub open spec fn next_king(self) -> State {
        if self.white_to_move() {
            State { state: self.state & 0b00110 }
        } else {
            State { state: ((self.state & 0b11000) + 1) as u16 }
        }
    }

    pub open spec fn next_other(self) -> State {
        if self.white_to_move() {
            State { state: self.state & 0b11110 }
        } else {
            State { state: ((self.state & 0b11110) + 1) as u16 }
        }
    }

    pub open spec fn next_lrook(self) -> State {
        if self.white_to_move() {
            State { state: self.state & 0b10110 }
        } else {
            State { state: ((self.state & 0b11100) + 1) as u16 }
        }
    }

    pub open spec fn next_rrook(self) -> State {
        if self.white_to_move() {
            State { state: self.state & 0b01110 }
        } else {
            State { state: ((self.state & 0b11010) + 1) as u16 }
        }
    }

    pub open spec fn next_push(self, piece_move: u64) -> State {
        if self.white_to_move() {
            State {
                state: ((self.state | 0b100000) & 0b111110) | (((piece_move & 0xff000000) >> 16u64) as u16),
            }
        } else {
            State {
                state: (((self.state | 0b100000) & 0b111110) + 1) as u16 | (((piece_move & 0xff00000000)
                    >> 24u64) as u16),
            }
        }
    }

    /// The state at the start of a game: white to move, all rights.
    pub fn new() -> (r: State)
        ensures
            r.white_to_move(),
            r.rights_wl() && r.rights_wr() && r.rights_bl() && r.rights_br(),
            r.plain(),
    {
        proof {
            state_facts(0b11111, 0);
        }
        State { state: 0b0000000000011111 }
    }

    pub fn white(&self) -> (r: bool)
        ensures
            r == self.white_to_move(),
    {
        proof {
            state_facts(self.state, 0);
        }
        (self.state & 1) == 1
    }

    pub fn enPassant(&self) -> (r: bool)
        ensures
            r == self.ep_available(),
    {
        (self.state >> 5 & 1) == 1
    }

    /// Whether the side to move keeps either castling right.
    pub fn castle(&self) -> (r: bool)
        ensures
            r == (self.mover_left() || self.mover_right()),
    {
        proof {
            state_facts(self.state, 0);
        }
        if self.white() {
            return (self.state & 0b0000000000011000) > 0;
        }
        (self.state & 0b0000000000000110) > 0
    }

    pub fn castleWL(&self) -> (r: bool)
        ensures
            r == self.rights_wl(),
    {
        proof {
            state_facts(self.state, 0);
        }
        (self.state & 0b0000000000001000) > 0
    }

    pub fn castleWR(&self) -> (r: bool)
        ensures
            r == self.rights_wr(),
    {
        proof {
            state_facts(self.state, 0);
        }
        (self.state & 0b0000000000010000) > 0
    }

    pub fn castleBL(&self) -> (r: bool)
        ensures
            r == self.rights_bl(),
    {
        proof {
            state_facts(self.state, 0);
        }
        (self.state & 0b0000000000000010) > 0
    }

    pub fn castleBR(&self) -> (r: bool)
        ensures
            r == self.rights_br(),
    {
        proof {
            state_facts(self.state, 0);
        }
        (self.state & 0b0000000000000100) > 0
    }

    /// After a king move (castling included): the mover loses both rights.
    pub fn kingMove(&self) -> (r: State)
        ensures
            r == self.next_king(),
            self.passes_to(r, false, false),
            r.plain(),
    {
        proof {
            state_facts(self.state, 0);
        }
        if self.white() {
            return State { state: self.state & 0b0000000000000110 };
        }
        State { state: (self.state & 0b000000000011000) + 1 }
    }

    /// After a move that touches no right.
    pub fn otherMove(&self) -> (r: State)
        ensures
            r == self.next_other(),
            self.passes_to(r, true, true),
            r.plain(),
    {
        proof {
            state_facts(self.state, 0);
        }
        if self.white() {
            return State { state: self.state & 0b0000000000011110 };
        }
        State { state: (self.state & 0b0000000000011110) + 1 }
    }

    /// After a move of the mover's a-side rook from its home square.
    pub fn lRookMove(&self) -> (r: State)
        ensures
            r == self.next_lrook(),
            self.passes_to(r, false, true),
            r.plain(),
    {
        proof {
            state_facts(self.state, 0);
        }
        if self.white() {
            return State { state: self.state & 0b0000000000010110 };
        }
        State { state: (self.state & 0b0000000000011100) + 1 }
    }

    /// After a move of the mover's h-side rook from its home square.
    pub fn rRookMove(&self) -> (r: State)
        ensures
            r == self.next_rrook(),
            self.passes_to(r, true, false),
            r.plain(),
    {
        proof {
            state_facts(self.state, 0);
        }
        if self.white() {
            return State { state: self.state & 0b0000000000001110 };
        }
        State { state: (self.state & 0b0000000000011010) + 1 }
    }

    /// After a two-square pawn push; `piece_move` holds the pawn's origin and
    /// destination squares.
    pub fn pawnPush(&self, piece_move: u64) -> (r: State)
        ensures
            r == self.next_push(piece_move),
            self.passes_to(r, true, true),
            r.ep_available(),
            !bit16(r.state, 6) && !bit16(r.state, 7),
            r.ep_files() as u64 == (if self.white_to_move() {
                (piece_move >> 24u64) & 0xff
            } else {
                (piece_move >> 32u64) & 0xff
            }),
    {
        proof {
            state_facts(self.state, piece_move);
        }
        if self.white() {
            let ep_position: u16 = ((piece_move & 0x00000000ff000000u64) >> 16) as u16;
            return State { state: ((self.state | 0b00100000) & 0b0000000000111110) | ep_position };
        }
        let ep_position: u16 = ((piece_move & 0x000000ff00000000u64) >> 24) as u16;
        State { state: (((self.state | 0b00100000) & 0b0000000000111110) + 1) | ep_position }
    }

    /// The square of the pawn that may be taken en passant, as a mask.
    pub fn epSquare(&self) -> (r: u64)
        ensures
            r == self.ep_pawn_mask(),
    {
        let enPassantSquare: u64 = (self.state >> 8) as u64;
        if self.white() {
            enPassantSquare << 32
        } else {
            enPassantSquare << 24
        }
    }
}

/// `r` is `s` handed to black (`to_black`) or white, with bits 1 to 4 of `s`
/// kept where the matching flag is set, and nothing above bit 4.
pub open spec fn handed(s: u16, r: u16, to_black: bool, k1: bool, k2: bool, k3: bool, k4: bool) -> bool {
    &&& bit16(r, 0) == to_black
    &&& bit16(r, 1) == (bit16(s, 1) && k1)
    &&& bit16(r, 2) == (bit16(s, 2) && k2)
    &&& bit16(r, 3) == (bit16(s, 3) && k3)
    &&& bit16(r, 4) == (bit16(s, 4) && k4)
    &&& r >> 5u16 == 0
}

/// Every transition hands the move to the other side; only the one after a
/// two-square push leaves en passant available.
pub proof fn lemma_transitions(s: State, piece_move: u64)
    ensures
        s.passes_to(s.next_king(), false, false),
        s.passes_to(s.next_other(), true, true),
        s.passes_to(s.next_lrook(), false, true),
        s.passes_to(s.next_rrook(), true, false),
        s.passes_to(s.next_push(piece_move), true, true),
        !s.next_king().ep_available() && !s.next_other().ep_available(),
        !s.next_lrook().ep_available() && !s.next_rrook().ep_available(),
        s.next_push(piece_move).ep_available(),
{
    state_facts(s.state, piece_move);
    plain_has_no_ep(s.next_king().state);
    plain_has_no_ep(s.next_other().state);
    plain_has_no_ep(s.next_lrook().state);
    plain_has_no_ep(s.next_rrook().state);
}

proof fn plain_has_no_ep(x: u16)
    by (bit_vector)
    ensures
        x >> 5u16 == 0 ==> !bit16(x, 5),
{
}

proof fn state_facts(s: u16, pm: u64)
    by (bit_vector)
    ensures
        bit16(0b11111u16, 0) && bit16(0b11111u16, 1) && bit16(0b11111u16, 2),
        bit16(0b11111u16, 3) && bit16(0b11111u16, 4) && (0b11111u16 >> 5u16) == 0,
        (s & 0b11000u16 > 0) == (bit16(s, 3) || bit16(s, 4)),
        (s & 0b00110u16 > 0) == (bit16(s, 1) || bit16(s, 2)),
        (s & 0b01000u16 > 0) == bit16(s, 3),
        (s & 0b10000u16 > 0) == bit16(s, 4),
        (s & 0b00010u16 > 0) == bit16(s, 1),
        (s & 0b00100u16 > 0) == bit16(s, 2),
        (s & 1u16 == 1u16) == bit16(s, 0),
        handed(s, s & 0b00110u16, false, true, true, false, false),
        handed(s, s & 0b11110u16, false, true, true, true, true),
        handed(s, s & 0b10110u16, false, true, true, false, true),
        handed(s, s & 0b01110u16, false, true, true, true, false),
        s & 0b11000u16 <= 0b11000u16,
        s & 0b11110u16 <= 0b11110u16,
        s & 0b11100u16 <= 0b11100u16,
        s & 0b11010u16 <= 0b11010u16,
        handed(s, ((s & 0b11000u16) + 1) as u16, true, false, false, true, true),
        handed(s, ((s & 0b11110u16) + 1) as u16, true, true, true, true, true),
        handed(s, ((s & 0b11100u16) + 1) as u16, true, false, true, true, true),
        handed(s, ((s & 0b11010u16) + 1) as u16, true, true, false, true, true),
        (pm & 0x00000000ff000000u64) >> 16u64 <= 0xff00u64,
        (pm & 0x000000ff00000000u64) >> 24u64 <= 0xff00u64,
        ((s | 0b00100000u16) & 0b111110u16) <= 0b111110u16,
        ({
            let e = ((pm & 0x00000000ff000000u64) >> 16u64) as u16;
            let r = ((s | 0b00100000u16) & 0b111110u16) | e;
            &&& !bit16(r, 0)
            &&& bit16(r, 1) == bit16(s, 1) && bit16(r, 2) == bit16(s, 2)
            &&& bit16(r, 3) == bit16(s, 3) && bit16(r, 4) == bit16(s, 4)
            &&& bit16(r, 5) && !bit16(r, 6) && !bit16(r, 7)
            &&& (r >> 8u16) as u64 == (pm >> 24u64) & 0xff
        }),
        ({
            let e = ((pm & 0x000000ff00000000u64) >> 24u64) as u16;
            let r = ((((s | 0b00100000u16) & 0b111110u16) + 1) as u16) | e;
            &&& bit16(r, 0)
            &&& bit16(r, 1) == bit16(s, 1) && bit16(r, 2) == bit16(s, 2)
            &&& bit16(r, 3) == bit16(s, 3) && bit16(r, 4) == bit16(s, 4)
            &&& bit16(r, 5) && !bit16(r, 6) && !bit16(r, 7)
            &&& (r >> 8u16) as u64 == (pm >> 32u64) & 0xff
        }),
{
}

} // verus!
