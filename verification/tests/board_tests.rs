use grand_chess::board::Board;
use grand_chess::board::PiecesDelta;
use grand_chess::fen::compute_eval;
use grand_chess::fen::compute_hash;
use grand_chess::fen::FenError;
use grand_chess::moves::Move;
use grand_chess::moves::MoveType;
use grand_chess::piece::Piece;
use grand_chess::piece::PieceColor;
use grand_chess::piece::PieceType;
use grand_chess::zobrist::ZobristKeys;

const STARTPOS: &str = "rnbqkbnr/pppppppp/8/8/8/8/PPPPPPPP/RNBQKBNR w KQkq - 0 1";

#[test]
fn test_moves() {
    test_move(0, 63, MoveType::Promote, Piece::BlackKing, PieceType::Empty);
    test_move(0, 63, MoveType::KingCastle, Piece::WhiteBishop, PieceType::Rook);
}

fn test_move(from: u32, to: u32, move_type: MoveType, piece: Piece, captured: PieceType) {
    {
        let m = Move::new(from, to, move_type, piece, captured);
        assert_eq!(m.from(), from);
        assert_eq!(m.to(), to);
        assert_eq!(m.move_type(), move_type);
        assert_eq!(m.piece(), piece);
        assert_eq!(m.captured(), captured);
    }
    {
        let mut m = Move::null();
        m.set_to(to);
        m.set_from(from);
        m.set_type(move_type);
        m.set_piece(piece);
        m.set_captured(captured);
        assert_eq!(m.to(), to);
        assert_eq!(m.from(), from);
        assert_eq!(m.move_type(), move_type);
        assert_eq!(m.piece(), piece);
        assert_eq!(m.captured(), captured);
    }
}

#[test]
fn fen_startpos_fields() {
    let keys = ZobristKeys::new();
    let b = Board::from_fen(STARTPOS, &keys).unwrap();
    assert_eq!(b.current_color, PieceColor::White);
    assert_eq!(b.castle_flags, 0xF);
    assert_eq!(b.last_double, None);
    assert_eq!(b.piece_at(0), Piece::WhiteRook);
    assert_eq!(b.piece_at(4), Piece::WhiteKing);
    assert_eq!(b.piece_at(12), Piece::WhitePawn);
    assert_eq!(b.piece_at(36), Piece::Empty);
    assert_eq!(b.piece_at(60), Piece::BlackKing);
    assert_eq!(b.piece_at(63), Piece::BlackRook);
}

#[test]
fn fen_hash_matches_recomputation() {
    let keys = ZobristKeys::new();
    let fens = [
        STARTPOS,
        "r3k2r/p1ppqpb1/bn2pnp1/3PN3/1p2P3/2N2Q1p/PPPBBPPP/R3K2R w KQkq - 0 1",
        "8/2k1p3/3pP3/3P2K1/8/8/8/8 b - - 0 1",
        "rnbqkbnr/ppp1pppp/8/8/3pP3/8/PPPP1PPP/RNBQKBNR b KQkq e3 0 1",
    ];
    for fen in fens {
        let b = Board::from_fen(fen, &keys).unwrap();
        let h = compute_hash(&keys, &b.pieces, b.castle_flags, b.last_double, b.current_color);
        assert_eq!(b.hash, h);
        let e = compute_eval(&b.pieces, b.current_color);
        assert_eq!(b.eval(), e);
    }
}

#[test]
fn fen_en_passant_landing_square() {
    let keys = ZobristKeys::new();
    // After e2e4 the en-passant field reads e3; the board stores the
    // pushed pawn's landing square e4 = 28.
    let b = Board::from_fen(
        "rnbqkbnr/ppp1pppp/8/8/3pP3/8/PPPP1PPP/RNBQKBNR b KQkq e3 0 1",
        &keys,
    )
    .unwrap();
    assert_eq!(b.last_double, Some(28));
}

#[test]
fn fen_errors() {
    let keys = ZobristKeys::new();
    assert!(matches!(
        Board::from_fen("", &keys),
        Err(FenError::NotEnoughInfo)
    ));
    assert!(matches!(
        Board::from_fen("rnbqkbnr/pppppppp/8/8/8/8/PPPPPPPP/RNBQKBNR", &keys),
        Err(FenError::NotEnoughInfo)
    ));
    assert!(matches!(
        Board::from_fen("xnbqkbnr/pppppppp/8/8/8/8/PPPPPPPP/RNBQKBNR w KQkq - 0 1", &keys),
        Err(FenError::NoSuchPiece(_))
    ));
    assert!(matches!(
        Board::from_fen("rnbqkbnr/pppppppp/8/8/8/8/PPPPPPPP/RNBQKBNR z KQkq - 0 1", &keys),
        Err(FenError::NoSuchColor(_))
    ));
    assert!(matches!(
        Board::from_fen("rnbqkbnr/pppppppp/8/8/8/8/PPPPPPPP/RNBQKBNR w XQkq - 0 1", &keys),
        Err(FenError::NoSuchCastle(_))
    ));
    assert!(matches!(
        Board::from_fen("rnbqkbnr/pppppppp/8/8/8/8/PPPPPPPP/RNBQKBNR w KQkq e 0 1", &keys),
        Err(FenError::InvalidEnPressant(_))
    ));
    assert!(matches!(
        Board::from_fen("rnbqkbnr/pppppppp/8/8/8/8/PPPPPPPP/RNBQKBNR w KQkq e4 0 1", &keys),
        Err(FenError::EnPessentNotInRange(_))
    ));
}

#[test]
fn make_move_keeps_hash_and_eval_consistent() {
    let keys = ZobristKeys::new();
    let mut b = Board::from_fen(STARTPOS, &keys).unwrap();
    let m = b.parse_move("e2e4").unwrap();
    assert!(b.move_applies(m));
    let mut delta = PiecesDelta::new();
    b.make_move(&keys, m, &mut delta);

    assert_eq!(b.current_color, PieceColor::Black);
    assert_eq!(b.last_double, Some(28));
    assert_eq!(b.piece_at(12), Piece::Empty);
    assert_eq!(b.piece_at(28), Piece::WhitePawn);

    let h = compute_hash(&keys, &b.pieces, b.castle_flags, b.last_double, b.current_color);
    assert_eq!(b.hash, h);
    let e = compute_eval(&b.pieces, b.current_color);
    assert_eq!(b.eval(), e);
}

#[test]
fn make_move_sequence_repeats_identically() {
    let keys = ZobristKeys::new();
    let mut a = Board::from_fen(STARTPOS, &keys).unwrap();
    let mut b = a.duplicate();

    let line = ["e2e4", "e7e5", "g1f3", "b8c6", "f1c4", "g8f6", "e1g1"];
    for mv in line {
        let ma = a.parse_move(mv).unwrap();
        assert!(a.move_applies(ma));
        let mut d = PiecesDelta::new();
        a.make_move(&keys, ma, &mut d);
    }
    for mv in line {
        let mb = b.parse_move(mv).unwrap();
        let mut d = PiecesDelta::new();
        b.make_move(&keys, mb, &mut d);
    }

    assert_eq!(a.hash, b.hash);
    assert_eq!(a.eval(), b.eval());
    assert_eq!(a.castle_flags, b.castle_flags);
    assert_eq!(a.last_double, b.last_double);
    assert_eq!(a.current_color, b.current_color);
    for sq in 0..64 {
        assert_eq!(a.piece_at(sq), b.piece_at(sq));
    }
    for p in 0..12 {
        assert_eq!(a.bit_boards.pieces[p], b.bit_boards.pieces[p]);
    }
    assert_eq!(a.bit_boards.occupancy, b.bit_boards.occupancy);
}

fn undo_delta(mailbox: &mut Vec<Piece>, d: grand_chess::board::PieceDelta) {
    if d.from == 64 {
        mailbox[d.to as usize] = Piece::Empty;
    } else if d.to == 64 {
        mailbox[d.from as usize] = d.piece;
    } else {
        mailbox[d.to as usize] = Piece::Empty;
        mailbox[d.from as usize] = d.piece;
    }
}

#[test]
fn deltas_undo_each_legal_move() {
    let keys = ZobristKeys::new();
    let tables = grand_chess::attacks::AttackLookup::new().unwrap();
    let fens = [
        STARTPOS,
        "r3k2r/p1ppqpb1/bn2pnp1/3PN3/1p2P3/2N2Q1p/PPPBBPPP/R3K2R w KQkq - 0 1",
        "rnbqkbnr/ppp1pppp/8/8/3pP3/8/PPPP1PPP/RNBQKBNR b KQkq e3 0 1",
    ];
    for fen in fens {
        let board = Board::from_fen(fen, &keys).unwrap();
        let moves = grand_chess::movegen::generate_moves(&board, &tables);
        for i in 0..moves.len() {
            let m = moves.get(i);
            let mut nb = board.duplicate();
            let mut delta = PiecesDelta::new();
            nb.make_move(&keys, m, &mut delta);

            let mut mailbox = nb.pieces.clone();
            for k in (0..delta.pieces.len()).rev() {
                undo_delta(&mut mailbox, delta.pieces[k]);
            }
            for sq in 0..64 {
                assert_eq!(mailbox[sq], board.piece_at(sq), "square {} after {:?}", sq, m);
            }
        }
    }
}

#[test]
fn bitboards_partition_occupancy() {
    let keys = ZobristKeys::new();
    let b = Board::from_fen(
        "r3k2r/p1ppqpb1/bn2pnp1/3PN3/1p2P3/2N2Q1p/PPPBBPPP/R3K2R w KQkq - 0 1",
        &keys,
    )
    .unwrap();
    let bb = &b.bit_boards;
    for p in 0..12 {
        for q in (p + 1)..12 {
            assert_eq!(bb.pieces[p] & bb.pieces[q], 0);
        }
    }
    let white = bb.pieces[0] | bb.pieces[2] | bb.pieces[4] | bb.pieces[6] | bb.pieces[8]
        | bb.pieces[10];
    let black = bb.pieces[1] | bb.pieces[3] | bb.pieces[5] | bb.pieces[7] | bb.pieces[9]
        | bb.pieces[11];
    assert_eq!(bb.occupancy[0], white);
    assert_eq!(bb.occupancy[1], black);
}

#[test]
fn null_move_flips_side_and_keeps_hash_consistent() {
    let keys = ZobristKeys::new();
    let mut b = Board::from_fen(
        "rnbqkbnr/ppp1pppp/8/8/3pP3/8/PPPP1PPP/RNBQKBNR b KQkq e3 0 1",
        &keys,
    )
    .unwrap();
    b.make_null_move(&keys);
    assert_eq!(b.current_color, PieceColor::White);
    assert_eq!(b.last_double, None);
    let h = compute_hash(&keys, &b.pieces, b.castle_flags, b.last_double, b.current_color);
    assert_eq!(b.hash, h);
}

#[test]
fn piece_primitives() {
    assert_eq!(Piece::new(PieceType::Queen, PieceColor::Black), Piece::BlackQueen);
    assert_eq!(Piece::BlackQueen.get_type(), PieceType::Queen);
    assert_eq!(Piece::BlackQueen.get_color(), PieceColor::Black);
    assert_eq!(Piece::BlackQueen.flip_color(), Piece::WhiteQueen);
    assert_eq!(Piece::from_char('K').unwrap(), Piece::WhiteKing);
    assert!(Piece::from_char('x').is_err());
    assert_eq!(Piece::WhiteKnight.to_char(), 'N');

    let mut it = grand_chess::piece::PieceIter::new();
    let mut count = 0;
    while let Some(_) = it.next() {
        count += 1;
    }
    assert_eq!(count, 12);
}
