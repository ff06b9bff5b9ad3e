use bitboard_rust::bits::positionToSquare;
use bitboard_rust::board::Board;
use bitboard_rust::pieces::Pieces;
use bitboard_rust::state::State;

#[test]
fn position_to_square_sets_one_bit() {
    assert_eq!(positionToSquare(0), 1);
    assert_eq!(positionToSquare(5), 32);
    assert_eq!(positionToSquare(63), 1u64 << 63);
}

#[test]
fn new_state_has_white_to_move_and_all_rights() {
    let st = State::new();
    assert_eq!(st.state, 0b11111);
    assert!(st.white());
    assert!(!st.enPassant());
    assert!(st.castle());
    assert!(st.castleWL() && st.castleWR() && st.castleBL() && st.castleBR());
}

#[test]
fn king_move_clears_the_movers_rights() {
    let white = State { state: 0b11111 };
    assert_eq!(white.kingMove().state, 0b00110);
    let black = State { state: 0b11110 };
    assert_eq!(black.kingMove().state, 0b11001);
}

#[test]
fn other_move_keeps_rights_and_clears_en_passant() {
    let white = State { state: 0b0001_0000_0011_1111 };
    assert_eq!(white.otherMove().state, 0b11110);
    let black = State { state: 0b0000_1000_0011_1110 };
    assert_eq!(black.otherMove().state, 0b11111);
}

#[test]
fn rook_moves_clear_one_right() {
    let white = State { state: 0b11111 };
    assert_eq!(white.lRookMove().state, 0b10110);
    assert_eq!(white.rRookMove().state, 0b01110);
    let black = State { state: 0b11110 };
    assert_eq!(black.lRookMove().state, 0b11101);
    assert_eq!(black.rRookMove().state, 0b11011);
}

#[test]
fn pawn_push_records_the_file() {
    let white = State { state: 0b11111 };
    let after = white.pawnPush((1u64 << 12) | (1u64 << 28));
    assert_eq!(after.state, 0x103e);
    assert!(after.enPassant());
    assert!(!after.white());
    assert_eq!(after.epSquare(), 1u64 << 28);
    let black = State { state: 0b11110 };
    let after = black.pawnPush((1u64 << 51) | (1u64 << 35));
    assert_eq!(after.state, 0x083f);
    assert_eq!(after.epSquare(), 1u64 << 35);
}

#[test]
fn castle_reports_the_movers_rights() {
    assert!(State { state: 0b01001 }.castle());
    assert!(!State { state: 0b00111 }.castle());
    assert!(State { state: 0b00100 }.castle());
    assert!(!State { state: 0b11000 }.castle());
}

#[test]
fn start_pieces() {
    let w = Pieces::white();
    let b = Pieces::black();
    assert_eq!(w.occupied(), 0xffff);
    assert_eq!(b.occupied(), 0xffff_0000_0000_0000);
    assert_eq!(w.k, 1 << 4);
    assert_eq!(b.q, 1u64 << 59);
    assert!(w.isWellFormed() && b.isWellFormed());
}

#[test]
fn piece_moves_toggle_their_bitboard() {
    let mut p = Pieces::white();
    p.moveKnight((1 << 1) | (1 << 18));
    assert_eq!(p.n, (1 << 6) | (1 << 18));
    p.moveQueen((1 << 3) | (1 << 27));
    assert_eq!(p.q, 1 << 27);
    p.moveking((1 << 4) | (1 << 3));
    assert_eq!(p.k, 1 << 3);
    p.moveRook(1 | 2);
    assert_eq!(p.r, 2 | (1 << 7));
    p.moveBishop((1 << 2) | (1 << 9));
    assert_eq!(p.b, (1 << 5) | (1 << 9));
    p.movePawn((1 << 8) | (1 << 16));
    assert_eq!(p.p, 0xfe00 | (1 << 16));
}

#[test]
fn remove_piece_spares_the_king() {
    let mut p = Pieces::white();
    p.removePiece(!0xffu64);
    assert_eq!(p.k, 1 << 4);
    assert_eq!(p.q | p.r | p.b | p.n, 0);
    assert_eq!(p.p, 0xff00);
}

#[test]
fn piece_type_codes() {
    let p = Pieces::white();
    assert_eq!(p.pieceType(1 << 3), 0);
    assert_eq!(p.pieceType(1), 1 << 3);
    assert_eq!(p.pieceType(1 << 2), 2 << 3);
    assert_eq!(p.pieceType(1 << 1), 3 << 3);
    assert_eq!(p.pieceType(1 << 8), 4 << 3);
    assert_eq!(p.pieceType(1 << 4), 7 << 3);
    assert_eq!(p.pieceType(1 << 30), 7 << 3);
}

#[test]
fn fen_of_the_start_position() {
    let board = Board::from_fen("rnbqkbnr/pppppppp/8/8/8/8/PPPPPPPP/RNBQKBNR w KQkq - 0 1").unwrap();
    assert_eq!(board, Board::new());
}

#[test]
fn fen_side_rights_and_en_passant() {
    let board = Board::from_fen("4k3/8/8/3pP3/8/8/8/4K3 w Kq d6 0 1").unwrap();
    assert_eq!(board.st.state, 1 | 16 | 2 | 32 | (1 << 11));
    let board = Board::from_fen("  4k3/8/8/8/8/8/8/4K3   b   -   -").unwrap();
    assert_eq!(board.st.state, 0);
    assert_eq!(board.w.k, 1 << 4);
    assert_eq!(board.b.k, 1u64 << 60);
}

#[test]
fn fen_rejects_bad_text() {
    assert!(Board::from_fen("4k3/8/8/8/8/8/8/4K3 w -").is_none());
    assert!(Board::from_fen("4k3/8/8/8/8/8/8/4X3 w - -").is_none());
    assert!(Board::from_fen("4k3/8/8/8/8/8/8/4K3 w - z9").is_none());
    assert!(Board::from_fen("").is_none());
}

#[test]
fn fen_without_king_is_not_well_formed() {
    let board = Board::from_fen("8/8/8/8/8/8/8/4K3 w - -").unwrap();
    assert!(!board.isWellFormed());
}

#[test]
fn check_report_of_start_position() {
    let report = Board::new().check();
    assert_eq!(report.checkCount, 0);
    assert_eq!(report.kingIndex, 4);
    assert_eq!(report.selfOcc, 0xffff);
    assert_eq!(report.enemyOcc, 0xffff_0000_0000_0000);
    assert_eq!(report.enemySeen, 0x7eff_ff00_0000_0000);
    assert_eq!(report.pinHV | report.pinD | report.epPin | report.checkMask | report.kingBan, 0);
}

#[test]
fn check_report_of_a_rook_check() {
    let report = Board::from_fen("4r1k1/8/8/8/8/8/8/4K3 w - - 0 1").unwrap().check();
    assert_eq!(report.checkCount, 1);
    let file_e: u64 = (1..8).map(|r| 1u64 << (8 * r + 4)).sum();
    assert_eq!(report.checkMask, file_e);
    assert_eq!(report.kingBan, 0);
    let report = Board::from_fen("4r1k1/8/8/8/8/8/4K3/8 w - - 0 1").unwrap().check();
    assert_eq!(report.kingBan, 1 << 4);
}

#[test]
fn check_report_of_pins() {
    let report = Board::from_fen("6k1/8/8/8/1b6/8/3N4/4K2r w - - 0 1").unwrap().check();
    assert_eq!(report.checkCount, 1);
    assert_eq!(report.pinD, (1 << 11) | (1 << 18) | (1 << 25));
    assert_eq!(report.pinHV, 0);
    assert_eq!(report.checkMask, (1 << 5) | (1 << 6) | (1 << 7));
    let report = Board::from_fen("6k1/8/8/8/8/8/8/r1P1K3 w - - 0 1").unwrap().check();
    assert_eq!(report.checkCount, 0);
    assert_eq!(report.pinHV, 0b1111);
}

#[test]
fn overlapping_sides_are_not_well_formed() {
    let mut board = Board::new();
    board.b.n |= 1 << 12;
    assert!(!board.isWellFormed());
}
