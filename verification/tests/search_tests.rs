use grand_chess::attacks::AttackLookup;
use grand_chess::board::Board;
use grand_chess::moves::MoveType;
use grand_chess::perft::perft;
use grand_chess::piece::PieceType;
use grand_chess::search::GrandChessEngine;
use grand_chess::uci::to_uci_move;
use grand_chess::zobrist::ZobristKeys;

const STARTPOS: &str = "rnbqkbnr/pppppppp/8/8/8/8/PPPPPPPP/RNBQKBNR w KQkq - 0 1";

#[test]
fn perft_startpos_shallow() {
    let keys = ZobristKeys::new();
    let tables = AttackLookup::new().unwrap();
    let b = Board::from_fen(STARTPOS, &keys).unwrap();
    assert_eq!(perft(&b, 0, &keys, &tables), 1);
    assert_eq!(perft(&b, 1, &keys, &tables), 20);
    assert_eq!(perft(&b, 2, &keys, &tables), 400);
    assert_eq!(perft(&b, 3, &keys, &tables), 8902);
}

#[test]
fn perft_tactical_positions() {
    let keys = ZobristKeys::new();
    let tables = AttackLookup::new().unwrap();

    let kiwipete = Board::from_fen(
        "r3k2r/p1ppqpb1/bn2pnp1/3PN3/1p2P3/2N2Q1p/PPPBBPPP/R3K2R w KQkq - 0 1",
        &keys,
    )
    .unwrap();
    assert_eq!(perft(&kiwipete, 1, &keys, &tables), 48);
    assert_eq!(perft(&kiwipete, 2, &keys, &tables), 2039);

    let endgame = Board::from_fen("8/2p5/3p4/KP5r/1R3p1k/8/4P1P1/8 w - - 0 1", &keys).unwrap();
    assert_eq!(perft(&endgame, 1, &keys, &tables), 14);
    assert_eq!(perft(&endgame, 2, &keys, &tables), 191);
    assert_eq!(perft(&endgame, 3, &keys, &tables), 2812);

    let castling = Board::from_fen("4k3/8/8/8/8/8/8/4K2R w K - 0 1", &keys).unwrap();
    assert_eq!(perft(&castling, 1, &keys, &tables), 15);
    assert_eq!(perft(&castling, 2, &keys, &tables), 66);
    assert_eq!(perft(&castling, 3, &keys, &tables), 1197);
    assert_eq!(perft(&castling, 4, &keys, &tables), 7059);

    let pawns = Board::from_fen("8/8/8/8/8/4k3/4P3/4K3 w - - 0 1", &keys).unwrap();
    assert_eq!(perft(&pawns, 6, &keys, &tables), 11848);

    let pawn_endgame = Board::from_fen("8/2k1p3/3pP3/3P2K1/8/8/8/8 b - - 0 1", &keys).unwrap();
    assert_eq!(perft(&pawn_endgame, 6, &keys, &tables), 34822);
}

#[test]
fn perft_castling_and_pawns_deep() {
    let keys = ZobristKeys::new();
    let tables = AttackLookup::new().unwrap();

    let castling = Board::from_fen("4k3/8/8/8/8/8/8/4K2R w K - 0 1", &keys).unwrap();
    assert_eq!(perft(&castling, 6, &keys, &tables), 764_643);

    let pawn_duel = Board::from_fen("8/3k4/3p4/8/3P4/3K4/8/8 b - - 0 1", &keys).unwrap();
    assert_eq!(perft(&pawn_duel, 6, &keys, &tables), 158_065);
}

#[test]
fn perft_knights_deep() {
    let keys = ZobristKeys::new();
    let tables = AttackLookup::new().unwrap();

    let knights = Board::from_fen("8/1k6/8/5N2/8/4n3/8/2K5 b - - 0 1", &keys).unwrap();
    assert_eq!(perft(&knights, 6, &keys, &tables), 3_147_566);
}

#[test]
fn perft_knight_forks_deep() {
    let keys = ZobristKeys::new();
    let tables = AttackLookup::new().unwrap();

    let mirrored = Board::from_fen("8/8/3K4/3Nn3/3nN3/4k3/8/8 b - - 0 1", &keys).unwrap();
    assert_eq!(perft(&mirrored, 6, &keys, &tables), 4_405_103);
}

#[test]
fn perft_knight_pairs_deep() {
    let keys = ZobristKeys::new();
    let tables = AttackLookup::new().unwrap();

    let pairs = Board::from_fen("8/1n4N1/2k5/8/8/5K2/1N4n1/8 b - - 0 1", &keys).unwrap();
    assert_eq!(perft(&pairs, 6, &keys, &tables), 8_503_277);
}

#[test]
fn perft_reference_deep() {
    let keys = ZobristKeys::new();
    let tables = AttackLookup::new().unwrap();

    let b = Board::from_fen(STARTPOS, &keys).unwrap();
    assert_eq!(perft(&b, 5, &keys, &tables), 4_865_609);
}

#[test]
fn perft_kiwipete_deep() {
    let keys = ZobristKeys::new();
    let tables = AttackLookup::new().unwrap();

    let kiwipete = Board::from_fen(
        "r3k2r/p1ppqpb1/bn2pnp1/3PN3/1p2P3/2N2Q1p/PPPBBPPP/R3K2R w KQkq - 0 1",
        &keys,
    )
    .unwrap();
    assert_eq!(perft(&kiwipete, 3, &keys, &tables), 97_862);
    assert_eq!(perft(&kiwipete, 4, &keys, &tables), 4_085_603);
}

#[test]
fn movegen_counts_startpos() {
    let keys = ZobristKeys::new();
    let tables = AttackLookup::new().unwrap();
    let b = Board::from_fen(STARTPOS, &keys).unwrap();
    let moves = grand_chess::movegen::generate_moves(&b, &tables);
    assert_eq!(moves.len(), 20);
    for i in 0..moves.len() {
        assert!(b.move_applies(moves.get(i)));
    }
    let captures = grand_chess::movegen::generate_captures(&b, &tables);
    assert_eq!(captures.len(), 0);
}

#[test]
fn parse_move_cases() {
    let keys = ZobristKeys::new();
    let b = Board::from_fen(STARTPOS, &keys).unwrap();

    let dbl = b.parse_move("e2e4").unwrap();
    assert_eq!(dbl.from(), 12);
    assert_eq!(dbl.to(), 28);
    assert_eq!(dbl.move_type(), MoveType::DoublePush);

    let quiet = b.parse_move("g1f3").unwrap();
    assert_eq!(quiet.move_type(), MoveType::QuietMove);
    assert_eq!(quiet.piece(), grand_chess::piece::Piece::WhiteKnight);

    assert!(b.parse_move("e2").is_err());
    assert!(b.parse_move("g1f3x").is_err());

    let castle_board = Board::from_fen("4k3/8/8/8/8/8/8/4K2R w K - 0 1", &keys).unwrap();
    let castle = castle_board.parse_move("e1g1").unwrap();
    assert_eq!(castle.move_type(), MoveType::KingCastle);

    let promo_board = Board::from_fen("8/4P3/8/8/8/4k3/8/4K3 w - - 0 1", &keys).unwrap();
    let promo = promo_board.parse_move("e7e8q").unwrap();
    assert_eq!(promo.move_type(), MoveType::Promote);
    assert_eq!(promo.piece().get_type(), PieceType::Queen);

    let ep_board = Board::from_fen(
        "rnbqkbnr/ppp1p1pp/8/3pPp2/8/8/PPPP1PPP/RNBQKBNR w KQkq f6 0 1",
        &keys,
    )
    .unwrap();
    let ep = ep_board.parse_move("e5f6").unwrap();
    assert_eq!(ep.move_type(), MoveType::EnPassantCapture);
}

#[test]
fn uci_move_round_trip() {
    let keys = ZobristKeys::new();
    let b = Board::from_fen(STARTPOS, &keys).unwrap();
    let m = b.parse_move("e2e4").unwrap();
    assert_eq!(to_uci_move(m), "e2e4");

    let promo_board = Board::from_fen("8/4P3/8/8/8/4k3/8/4K3 w - - 0 1", &keys).unwrap();
    let promo = promo_board.parse_move("e7e8n").unwrap();
    assert_eq!(to_uci_move(promo), "e7e8n");
}

#[test]
fn search_finds_mate_in_one() {
    let mut engine = GrandChessEngine::new(1 << 20).unwrap();
    engine.board = Board::from_fen("6k1/5ppp/8/8/8/8/5PPP/R5K1 w - - 0 1", &engine.keys).unwrap();
    let (best, infos) = engine.go(3, None, None);
    let best = best.unwrap();
    assert_eq!(to_uci_move(best), "a1a8");
    let last = infos.last().unwrap();
    assert_eq!(last.score_mate, Some(1));
}

#[test]
fn search_reports_monotonic_depths() {
    let mut engine = GrandChessEngine::new(1 << 20).unwrap();
    engine.board = Board::from_fen(STARTPOS, &engine.keys).unwrap();
    let (best, infos) = engine.go(6, None, None);
    assert!(best.is_some());
    assert!(infos.len() >= 6);
    for (i, info) in infos.iter().enumerate() {
        assert_eq!(info.depth as usize, i + 1);
        assert!(!info.pv.is_empty());
    }
    // The reported move is a pseudo-legal move of the root position.
    assert!(engine.board.move_applies(best.unwrap()));
}

#[test]
fn stop_message_ends_search_early() {
    let mut engine = GrandChessEngine::new(1 << 20).unwrap();
    engine.board = Board::from_fen(STARTPOS, &engine.keys).unwrap();
    let (tx, rx) = std::sync::mpsc::channel::<()>();
    tx.send(()).unwrap();
    let (best, infos) = engine.go(50, None, Some(&rx));
    // The pending stop message is seen at an early poll: the search
    // never gets near the depth limit, but the first depth reports.
    assert!(infos.len() >= 1);
    assert!(infos.len() < 10);
    assert!(best.is_some());
}

#[test]
fn movetime_deadline_ends_search() {
    let mut engine = GrandChessEngine::new(1 << 20).unwrap();
    engine.board = Board::from_fen(
        "r3k2r/p1ppqpb1/bn2pnp1/3PN3/1p2P3/2N2Q1p/PPPBBPPP/R3K2R w KQkq - 0 1",
        &engine.keys,
    )
    .unwrap();
    let (best, infos) = engine.go(60, Some(200), None);
    assert!(best.is_some());
    assert!(infos.len() >= 1);
    assert!(infos.len() < 60);
}

#[test]
fn move_ordering_table() {
    let mut engine = GrandChessEngine::new(1 << 16).unwrap();
    engine.board = Board::from_fen(STARTPOS, &engine.keys).unwrap();
    let m = engine.board.parse_move("g1f3").unwrap();
    let other = engine.board.parse_move("b1c3").unwrap();

    // The best move outranks everything; a quiet move with empty
    // tables scores its history value, zero here.
    assert_eq!(engine.score_move(m, 0, m), 200000);
    assert_eq!(engine.score_move(m, 0, other), 0);
    assert_eq!(engine.score_capture(m, m), 100000);
    // A knight (attacker type 1) taking a queen (victim type 4).
    let cap_board = Board::from_fen("3q4/8/4N3/8/8/8/4k3/4K3 w - - 0 1", &engine.keys).unwrap();
    let cap = cap_board.parse_move("e6d8").unwrap();
    assert_eq!(engine.score_capture(cap, m), (6 - 1) + 4 * 100);
    assert_eq!(engine.score_move(cap, 0, m), (6 - 1) + 4 * 100 + 10000);
}

#[test]
fn repetition_is_seen() {
    let mut engine = GrandChessEngine::new(1 << 16).unwrap();
    engine.repetition_table[0] = 12345;
    assert!(engine.is_repetition(12345, 1));
    assert!(!engine.is_repetition(12345, 0));
    assert!(!engine.is_repetition(999, 1));
}
