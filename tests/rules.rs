use bitboard_rust::board::{Board, MoveInfo};

fn board_of(fen: &str) -> Board {
    let board = Board::from_fen(fen).expect("readable FEN");
    assert!(board.isWellFormed());
    board
}

fn kinds(moves: &[MoveInfo]) -> Vec<u8> {
    moves.iter().map(|m| m.moveType & 7).collect()
}

#[test]
fn en_passant_blocked_by_rank_pin() {
    let board = board_of("8/8/8/K2pP2r/8/8/8/7k w - d6 0 1");
    let moves = board.generateMoves();
    assert!(!kinds(&moves).contains(&5));
}

#[test]
fn en_passant_blocked_by_rank_pin_other_order() {
    let board = board_of("8/8/8/KPp4r/8/8/8/7k w - c6 0 1");
    let moves = board.generateMoves();
    assert!(!kinds(&moves).contains(&5));
}

#[test]
fn en_passant_allowed_without_pin() {
    let board = board_of("8/8/8/K2pP3/8/8/8/7k w - d6 0 1");
    let moves = board.generateMoves();
    let ep: Vec<&MoveInfo> = moves.iter().filter(|m| m.moveType & 7 == 5).collect();
    assert_eq!(ep.len(), 1);
    assert_eq!(ep[0].from, 36);
    assert_eq!(ep[0].to, 43);
}

#[test]
fn en_passant_round_trip_restores_taken_pawn() {
    let mut board = board_of("8/8/8/K2pP3/8/8/8/7k w - d6 0 1");
    let before = board;
    let mv = board.generateMoves().into_iter().find(|m| m.moveType & 7 == 5).unwrap();
    board.applyMove(mv);
    assert_eq!(board.b.p, 0);
    assert_eq!(board.w.p, 1u64 << 43);
    board.undoMove(mv);
    assert_eq!(board, before);
}

#[test]
fn checkmate_has_no_moves_and_a_checker() {
    let board = board_of("rnb1kbnr/pppp1ppp/8/4p3/6Pq/5P2/PPPPP2P/RNBQKBNR w KQkq - 1 3");
    assert!(board.generateMoves().is_empty());
    assert_eq!(board.check().checkCount, 1);
}

#[test]
fn stalemate_has_no_moves_and_no_checker() {
    let board = board_of("7k/5Q2/6K1/8/8/8/8/8 b - - 0 1");
    assert!(board.generateMoves().is_empty());
    assert_eq!(board.check().checkCount, 0);
}

#[test]
fn double_check_allows_only_king_moves() {
    let board = board_of("4k3/8/8/8/1b6/8/P7/4K2r w - - 0 1");
    assert_eq!(board.check().checkCount, 2);
    let moves = board.generateMoves();
    assert!(!moves.is_empty());
    assert!(moves.iter().all(|m| m.movedPiece == 'k' && m.from == 4));
}

#[test]
fn pinned_rook_stays_on_its_file() {
    let board = board_of("4k3/4r3/8/8/8/8/4R3/4K3 w - - 0 1");
    let moves = board.generateMoves();
    let rook: Vec<&MoveInfo> = moves.iter().filter(|m| m.movedPiece == 'r').collect();
    assert_eq!(rook.len(), 5);
    assert!(rook.iter().all(|m| m.to % 8 == 4));
    assert!(rook.iter().any(|m| m.to == 52 && m.moveType == 1 | (1 << 3)));
}

#[test]
fn pinned_knight_cannot_move() {
    let board = board_of("4k3/4r3/8/8/8/8/4N3/4K3 w - - 0 1");
    let moves = board.generateMoves();
    assert!(moves.iter().all(|m| m.movedPiece != 'n'));
}

#[test]
fn castling_both_sides() {
    let board = board_of("r3k2r/8/8/8/8/8/8/R3K2R w KQkq - 0 1");
    let moves = board.generateMoves();
    let k = kinds(&moves);
    assert!(k.contains(&3));
    assert!(k.contains(&4));
}

#[test]
fn castling_needs_rights() {
    let board = board_of("r3k2r/8/8/8/8/8/8/R3K2R w kq - 0 1");
    let k = kinds(&board.generateMoves());
    assert!(!k.contains(&3) && !k.contains(&4));
}

#[test]
fn castling_not_out_of_check() {
    let board = board_of("r3k2r/8/8/8/4q3/8/8/R3K2R w KQkq - 0 1");
    let k = kinds(&board.generateMoves());
    assert!(!k.contains(&3) && !k.contains(&4));
}

#[test]
fn castling_not_through_attacked_square() {
    let board = board_of("r3k2r/8/8/8/8/8/5r2/R3K2R w KQkq - 0 1");
    let k = kinds(&board.generateMoves());
    assert!(k.contains(&3));
    assert!(!k.contains(&4));
}

#[test]
fn castling_not_through_occupied_square() {
    let board = board_of("r3k2r/8/8/8/8/8/8/RN2K2R w KQkq - 0 1");
    let k = kinds(&board.generateMoves());
    assert!(!k.contains(&3));
    assert!(k.contains(&4));
}

#[test]
fn castling_rook_may_pass_attacked_square() {
    let board = board_of("r3k2r/8/8/8/4b3/8/8/R3K2R w KQkq - 0 1");
    let k = kinds(&board.generateMoves());
    assert!(k.contains(&3));
    assert!(k.contains(&4));
}

#[test]
fn castling_moves_king_and_rook() {
    let mut board = board_of("r3k2r/8/8/8/8/8/8/R3K2R w KQkq - 0 1");
    let before = board;
    let moves = board.generateMoves();
    let long = *moves.iter().find(|m| m.moveType == 3).unwrap();
    board.applyMove(long);
    assert_eq!(board.w.k, 1u64 << 2);
    assert_eq!(board.w.r, (1u64 << 3) | (1u64 << 7));
    assert!(!board.st.castleWL() && !board.st.castleWR());
    assert!(board.st.castleBL() && board.st.castleBR());
    assert!(!board.st.white());
    board.undoMove(long);
    assert_eq!(board, before);
    let short = *moves.iter().find(|m| m.moveType == 4).unwrap();
    board.applyMove(short);
    assert_eq!(board.w.k, 1u64 << 6);
    assert_eq!(board.w.r, 1u64 | (1u64 << 5));
    board.undoMove(short);
    assert_eq!(board, before);
}

#[test]
fn promotion_gives_four_moves() {
    let board = board_of("8/P7/8/8/8/8/8/k6K w - - 0 1");
    let moves = board.generateMoves();
    let pawn: Vec<&MoveInfo> = moves.iter().filter(|m| m.movedPiece == 'p').collect();
    assert_eq!(pawn.len(), 4);
    let mut types: Vec<u8> = pawn.iter().map(|m| m.moveType).collect();
    types.sort();
    assert_eq!(types, vec![6, 70, 134, 198]);
    assert!(pawn.iter().all(|m| m.from == 48 && m.to == 56));
}

#[test]
fn promotion_with_capture_gives_four_moves() {
    let board = board_of("1n6/P7/8/8/8/8/8/k6K w - - 0 1");
    let moves = board.generateMoves();
    let captures: Vec<&MoveInfo> = moves.iter().filter(|m| m.movedPiece == 'p' && m.to == 57).collect();
    assert_eq!(captures.len(), 4);
    let mut types: Vec<u8> = captures.iter().map(|m| m.moveType).collect();
    types.sort();
    assert_eq!(types, vec![31, 95, 159, 223]);
}

#[test]
fn promotion_round_trip() {
    let mut board = board_of("1n6/P7/8/8/8/8/8/k6K w - - 0 1");
    let before = board;
    for mv in board.generateMoves() {
        board.applyMove(mv);
        if mv.moveType == 95 {
            assert_eq!(board.w.r, 1u64 << 57);
            assert_eq!(board.b.n, 0);
            assert_eq!(board.w.p, 0);
        }
        board.undoMove(mv);
        assert_eq!(board, before);
    }
}

#[test]
fn every_move_round_trips() {
    let fens = [
        "r3k2r/p1ppqpb1/bn2pnp1/3PN3/1p2P3/2N2Q1p/PPPBBPPP/R3K2R w KQkq - 0 1",
        "r3k2r/p1ppqpb1/bn2pnp1/3PN3/Pp2P3/2N2Q1p/1PPBBPPP/R3K2R b KQkq a3 0 1",
        "rnbq1k1r/pp1Pbppp/2p5/8/2B5/8/PPP1NnPP/RNBQK2R w KQ - 1 8",
    ];
    for fen in fens {
        let mut board = board_of(fen);
        let before = board;
        for mv in board.generateMoves() {
            board.applyMove(mv);
            assert!(board.isWellFormed());
            board.undoMove(mv);
            assert_eq!(board, before);
        }
    }
}

#[test]
fn captures_record_the_taken_piece() {
    let board = board_of("4k3/8/8/3q4/4P3/8/8/4K3 w - - 0 1");
    let moves = board.generateMoves();
    let take = moves.iter().find(|m| m.movedPiece == 'p' && m.to == 35).unwrap();
    assert_eq!(take.moveType, 1);
    let board = board_of("4k3/8/8/3n4/4P3/8/8/4K3 w - - 0 1");
    let moves = board.generateMoves();
    let take = moves.iter().find(|m| m.movedPiece == 'p' && m.to == 35).unwrap();
    assert_eq!(take.moveType, 1 | (3 << 3));
}

#[test]
fn rook_move_from_home_clears_one_right() {
    let mut board = board_of("r3k2r/8/8/8/8/8/8/R3K2R w KQkq - 0 1");
    let mv = *board.generateMoves().iter().find(|m| m.movedPiece == 'r' && m.from == 0 && m.to == 1).unwrap();
    board.applyMove(mv);
    assert!(!board.st.castleWL());
    assert!(board.st.castleWR());
}

#[test]
fn double_push_sets_en_passant_file() {
    let mut board = Board::new();
    let mv = *board.generateMoves().iter().find(|m| m.from == 12 && m.to == 28).unwrap();
    assert_eq!(mv.moveType, 2);
    board.applyMove(mv);
    assert!(board.st.enPassant());
    assert_eq!(board.st.state >> 8, 1 << 4);
    assert_eq!(board.st.epSquare(), 1u64 << 28);
}
