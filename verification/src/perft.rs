//! Perft: exhaustive legal-move counting to a fixed depth, the standard
//! cross-check of move generation and make-move together.

use vstd::prelude::*;

use crate::attacks::AttackLookup;
use crate::board::Board;
use crate::board::PiecesDelta;
use crate::moves::MoveType;
use crate::piece::PieceColor;
use crate::zobrist::ZobristKeys;

verus! {

/// Count the leaves of the legal game tree below `board`, `depth` plies
/// deep. A move is legal when, once made, the mover's king is not
/// attacked; a castle also needs the king's transit square safe and the
/// king not in check before the move.
pub fn perft_helper(board: &Board, depth: u32, keys: &ZobristKeys, tables: &AttackLookup) -> (r:
    u64)
    requires
        board.wf(),
        board.hash_ok(*keys),
        board.eval_ok(),
        keys.wf(),
        tables.wf(),
    ensures
        depth == 0 ==> r == 1,
    decreases depth,
{
    if depth == 0 {
        return 1;
    }

    let moves = crate::movegen::generate_moves(board, tables);
    let mut nodes: u64 = 0;
    let mut i: usize = 0;
    while i < moves.len()
        invariant
            board.wf(),
            board.hash_ok(*keys),
            board.eval_ok(),
            keys.wf(),
            tables.wf(),
            depth >= 1,
            crate::movegen::all_ok_from(*board, moves.moves@, 0),
            i <= moves.moves@.len(),
        decreases moves.moves@.len() - i,
    {
        let m = moves.get(i);
        let mut new_board = board.duplicate();
        let mut delta = PiecesDelta::new();
        new_board.make_move(keys, m, &mut delta);

        let mut legal = !new_board.is_king_attacked(tables, board.current_color);

        if legal && m.move_type() == MoveType::KingCastle {
            let castle_target: usize = if board.current_color == PieceColor::White {
                5
            } else {
                61
            };
            if new_board.is_square_attacked(tables, castle_target, new_board.current_color) {
                legal = false;
            }
            if board.is_king_attacked(tables, board.current_color) {
                legal = false;
            }
        } else if legal && m.move_type() == MoveType::QueenCastle {
            let castle_target: usize = if board.current_color == PieceColor::White {
                3
            } else {
                59
            };
            if new_board.is_square_attacked(tables, castle_target, new_board.current_color) {
                legal = false;
            }
            if board.is_king_attacked(tables, board.current_color) {
                legal = false;
            }
        }

        if legal {
            let sub = perft_helper(&new_board, depth - 1, keys, tables);
            nodes = if nodes <= u64::MAX - sub {
                nodes + sub
            } else {
                u64::MAX
            };
        }
        i = i + 1;
    }
    nodes
}

/// The perft count from the root: the sum over every legal move of the
/// counts one ply down.
pub fn perft(board: &Board, depth: u32, keys: &ZobristKeys, tables: &AttackLookup) -> (r: u64)
    requires
        board.wf(),
        board.hash_ok(*keys),
        board.eval_ok(),
        keys.wf(),
        tables.wf(),
    ensures
        depth == 0 ==> r == 1,
{
    perft_helper(board, depth, keys, tables)
}

} // verus!
