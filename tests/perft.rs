use bitboard_rust::board::Board;
use bitboard_rust::perft::perft;

fn board_of(fen: &str) -> Board {
    let board = Board::from_fen(fen).expect("readable FEN");
    assert!(board.isWellFormed());
    board
}

fn count(fen: &str, depth: u32) -> u64 {
    let mut board = board_of(fen);
    let before = board;
    let nodes = perft(&mut board, depth);
    assert_eq!(board, before);
    nodes
}

const KIWIPETE: &str = "r3k2r/p1ppqpb1/bn2pnp1/3PN3/1p2P3/2N2Q1p/PPPBBPPP/R3K2R w KQkq - 0 1";
const ENDGAME: &str = "8/2p5/3p4/KP5r/1R3p1k/8/4P1P1/8 w - - 0 1";
const PROMOTIONS: &str = "r3k2r/Pppp1ppp/1b3nbN/nP6/BBP1P3/q4N2/Pp1P2PP/R2Q1RK1 w kq - 0 1";
const MIDGAME: &str = "rnbq1k1r/pp1Pbppp/2p5/8/2B5/8/PPP1NnPP/RNBQK2R w KQ - 1 8";

#[test]
fn perft_start_depth_1() {
    let mut board = Board::new();
    assert_eq!(perft(&mut board, 1), 20);
}

#[test]
fn perft_start_depth_2() {
    let mut board = Board::new();
    assert_eq!(perft(&mut board, 2), 400);
}

#[test]
fn perft_start_depth_3() {
    let mut board = Board::new();
    assert_eq!(perft(&mut board, 3), 8902);
}

#[test]
fn perft_start_depth_4() {
    let mut board = Board::new();
    let before = board;
    assert_eq!(perft(&mut board, 4), 197281);
    assert_eq!(board, before);
}

#[test]
fn perft_depth_0_is_one() {
    let mut board = Board::new();
    assert_eq!(perft(&mut board, 0), 1);
}

#[test]
fn perft_kiwipete() {
    assert_eq!(count(KIWIPETE, 1), 48);
    assert_eq!(count(KIWIPETE, 2), 2039);
    assert_eq!(count(KIWIPETE, 3), 97862);
}

#[test]
fn perft_rook_endgame() {
    assert_eq!(count(ENDGAME, 1), 14);
    assert_eq!(count(ENDGAME, 2), 191);
    assert_eq!(count(ENDGAME, 3), 2812);
    assert_eq!(count(ENDGAME, 4), 43238);
}

#[test]
fn perft_promotions() {
    assert_eq!(count(PROMOTIONS, 1), 6);
    assert_eq!(count(PROMOTIONS, 2), 264);
    assert_eq!(count(PROMOTIONS, 3), 9467);
}

#[test]
fn perft_midgame() {
    assert_eq!(count(MIDGAME, 1), 44);
    assert_eq!(count(MIDGAME, 2), 1486);
    assert_eq!(count(MIDGAME, 3), 62379);
}

#[test]
fn divide_counts_each_root_move() {
    let mut board = Board::new();
    let before = board;
    let (counts, total) = bitboard_rust::perft::divide(&mut board, 3);
    assert_eq!(board, before);
    assert_eq!(counts.len(), 20);
    assert_eq!(total, 8902);
    assert_eq!(counts.iter().map(|c| c.1).sum::<u64>(), 8902);
    let e4 = counts.iter().find(|c| c.0.from == 12 && c.0.to == 28).unwrap();
    assert_eq!(e4.1, 600);
}
