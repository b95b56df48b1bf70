use grand_chess::attacks::generate_bishop_attack;
use grand_chess::attacks::generate_rook_attack;
use grand_chess::attacks::get_occupancy;
use grand_chess::attacks::magic_key;
use grand_chess::attacks::AttackLookup;
use grand_chess::board::Board;
use grand_chess::board::PiecesDelta;
use grand_chess::layers::ReluLayer;
use grand_chess::moves::Move;
use grand_chess::nnue::Nnue;
use grand_chess::piece::PieceColor;
use grand_chess::tt::HashFlags;
use grand_chess::tt::THash;
use grand_chess::tt::TTable;
use grand_chess::zobrist::ZobristKeys;

use rand::Rng;

#[test]
fn relu_test() {
    {
        let input: Vec<i32> = (0..256 * 256).map(|index| i32::MIN + index as i32).collect();
        let relu = ReluLayer::new();
        let output = relu.propagate(&input);
        for i in 0..256 * 256 {
            assert_eq!((input[i] >> 6).clamp(0, 127) as i8, output[i]);
        }
    }
    {
        let input: Vec<i32> = (0..256 * 256).map(|index| i32::MAX - index as i32).collect();
        let relu = ReluLayer::new();
        let output = relu.propagate(&input);
        for i in 0..256 * 256 {
            assert_eq!((input[i] >> 6).clamp(0, 127) as i8, output[i]);
        }
    }
}

#[test]
fn bishop_attacks() {
    let tables = AttackLookup::new().unwrap();
    for square in 0..64 {
        let magic = tables.bishop_magics[square];
        let mask = tables.bishop_masks[square];
        let n = tables.bishop_shifts[square];
        for occupancy_index in 0..4096 {
            let occupancy = get_occupancy(occupancy_index, mask);
            let correct_attack = generate_bishop_attack(square, occupancy);
            let magic_attack = tables.bishop_table[square][magic_key(magic, occupancy, n)];
            assert_eq!(correct_attack, magic_attack);
        }
    }
}

#[test]
fn rook_attacks() {
    let tables = AttackLookup::new().unwrap();
    for square in 0..64 {
        let magic = tables.rook_magics[square];
        let mask = tables.rook_masks[square];
        let n = tables.rook_shifts[square];
        for occupancy_index in 0..4096 {
            let occupancy = get_occupancy(occupancy_index, mask);
            let correct_attack = generate_rook_attack(square, occupancy);
            let magic_attack = tables.rook_table[square][magic_key(magic, occupancy, n)];
            assert_eq!(correct_attack, magic_attack);
        }
    }
}

fn test_positions(keys: &ZobristKeys) -> Vec<Board> {
    [
        "rnbqkbnr/pppppppp/8/8/8/8/PPPPPPPP/RNBQKBNR w KQkq - 0 1",
        "r3k2r/p1ppqpb1/bn2pnp1/3PN3/1p2P3/2N2Q1p/PPPBBPPP/R3K2R w KQkq - 0 1",
        "4k3/8/8/8/8/8/8/4K2R w K - 0 1",
        "8/1n4N1/2k5/8/8/5K2/1N4n1/8 b - - 0 1",
        "B6b/8/8/8/2K5/4k3/8/b6B w - - 0 1",
        "r3k2r/8/8/8/8/8/8/2R1K2R b Kkq - 0 1",
        "R6r/8/8/2K5/5k2/8/8/r6R w - - 0 1",
        "8/2k1p3/3pP3/3P2K1/8/8/8/8 b - - 0 1",
        "8/8/8/8/8/4k3/4P3/4K3 w - - 0 1",
    ]
    .iter()
    .map(|fen| Board::from_fen(fen, keys).unwrap())
    .collect()
}

#[test]
fn test_all_moves_into_u128_and_from_u128() {
    let keys = ZobristKeys::new();
    let tables = AttackLookup::new().unwrap();
    let positions = test_positions(&keys);
    let mut rng = rand::thread_rng();

    for board in positions {
        let moves = grand_chess::movegen::generate_moves(&board, &tables);
        for i in 0..moves.len() {
            let m = moves.get(i);
            let mut new_board = board.duplicate();
            let mut delta = PiecesDelta::new();
            new_board.make_move(&keys, m, &mut delta);

            let depth = rng.gen_range(0..=0x7fff) as i32;
            let score = rng.gen_range(-10_000..=10_000) as i32;
            let flags = match rng.gen_range(0..=2) {
                0 => HashFlags::Exsact,
                1 => HashFlags::Alpha,
                _ => HashFlags::Beta,
            };

            let entry = THash { key: rng.gen::<u64>(), depth, score, flags, best_move: m };

            let encoded = entry.into_u128();
            let decoded = THash::from_u128(&board, encoded);

            assert_eq!(decoded.key, entry.key, "Key mismatch");
            assert_eq!(decoded.depth, entry.depth, "Depth mismatch");
            assert_eq!(decoded.score, entry.score, "Score mismatch");
            assert_eq!(decoded.flags, entry.flags, "Flags mismatch");
            assert_eq!(decoded.best_move, entry.best_move, "Best move mismatch");
        }
    }
}

#[test]
fn tt_write_then_probe_returns_entry() {
    let keys = ZobristKeys::new();
    let board = Board::from_fen("4k3/8/8/8/8/8/8/4K2R w K - 0 1", &keys).unwrap();
    let mut tt = TTable::new(1 << 16);
    let m = Move::null();

    let entry = THash::new(board.hash, 7, 123, m, HashFlags::Exsact);
    tt.write_entry(entry, 3);
    let got = tt.probe_entry(&board, board.hash, 3).unwrap();
    assert_eq!(got.key, board.hash);
    assert_eq!(got.depth, 7);
    assert_eq!(got.score, 123);
    assert_eq!(got.flags, HashFlags::Exsact);

    // A mate score is stored relative to the position and restored by ply.
    let mate_entry = THash::new(board.hash, 9, 48500, m, HashFlags::Beta);
    tt.write_entry(mate_entry, 4);
    let got = tt.probe_entry(&board, board.hash, 4).unwrap();
    assert_eq!(got.score, 48500);
    assert_eq!(got.depth, 9);
}

#[test]
fn tt_shallower_write_does_not_replace() {
    let keys = ZobristKeys::new();
    let board = Board::from_fen("4k3/8/8/8/8/8/8/4K2R w K - 0 1", &keys).unwrap();
    let mut tt = TTable::new(1 << 16);
    let m = Move::null();

    tt.write_entry(THash::new(board.hash, 9, 500, m, HashFlags::Exsact), 0);
    tt.write_entry(THash::new(board.hash, 3, -42, m, HashFlags::Alpha), 0);
    let got = tt.probe_entry(&board, board.hash, 0).unwrap();
    assert_eq!(got.depth, 9);
    assert_eq!(got.score, 500);

    // Probing a different key finds nothing.
    assert!(tt.probe_entry(&board, board.hash ^ 1, 0).is_none());

    tt.clear();
    assert!(tt.probe_entry(&board, board.hash, 0).is_none());
}

#[test]
fn nnue_null_move_keeps_accumulator() {
    let keys = ZobristKeys::new();
    let mut board = Board::from_fen(
        "r3k2r/p1ppqpb1/bn2pnp1/3PN3/1p2P3/2N2Q1p/PPPBBPPP/R3K2R w KQkq - 0 1",
        &keys,
    )
    .unwrap();
    let mut nnue = Nnue::new_zero();
    nnue.refresh_board(&board, 0);
    nnue.make_null_move(&keys, &mut board, 0);

    // The null move relocates no piece: ply 1's accumulator equals ply 0's.
    for p in 0..2 {
        assert_eq!(
            nnue.acc_stack[0].accumulators[p],
            nnue.acc_stack[1].accumulators[p]
        );
    }

    // And rebuilding from the post-null board gives the same rows again.
    nnue.refresh_board(&board, 2);
    for p in 0..2 {
        assert_eq!(
            nnue.acc_stack[1].accumulators[p],
            nnue.acc_stack[2].accumulators[p]
        );
    }
}

#[test]
fn nnue_incremental_matches_refresh_for_quiet_move() {
    let keys = ZobristKeys::new();
    let mut board = Board::from_fen(
        "r3k2r/p1ppqpb1/bn2pnp1/3PN3/1p2P3/2N2Q1p/PPPBBPPP/R3K2R w KQkq - 0 1",
        &keys,
    )
    .unwrap();
    let mut nnue = Nnue::new_zero();
    // Give the transformer distinctive weights so the check has teeth.
    for f in 0..nnue.transformer.weights.len() {
        for i in 0..256 {
            nnue.transformer.weights[f][i] = ((f * 7 + i * 13) % 251) as i16 - 125;
        }
    }
    for i in 0..256 {
        nnue.transformer.bias[i] = (i as i16) - 128;
    }

    nnue.refresh_board(&board, 0);
    let m = board.parse_move("g2g3").unwrap();
    assert!(board.move_applies(m));
    nnue.make_move(&keys, m, &mut board, 0);

    // The incremental update at ply 1 must agree with a full rebuild.
    nnue.refresh_board(&board, 2);
    for p in 0..2 {
        assert_eq!(
            nnue.acc_stack[1].accumulators[p],
            nnue.acc_stack[2].accumulators[p],
            "perspective {}",
            p
        );
    }
}

#[test]
fn nnue_load_rejects_truncated_file() {
    let mut nnue = Nnue::new_zero();
    let data: Vec<u8> = vec![0u8; 100];
    assert!(nnue.load(&data).is_err());
}

#[test]
fn nnue_load_accepts_full_zero_file() {
    let mut nnue = Nnue::new_zero();
    let needed = 12 + grand_chess::nnue::NNUE_FIXED_BYTES as usize;
    let data: Vec<u8> = vec![0u8; needed];
    assert!(nnue.load(&data).is_ok());
    // A zero network evaluates everything to zero.
    assert_eq!(nnue.eval(0, PieceColor::White), 0);
}
