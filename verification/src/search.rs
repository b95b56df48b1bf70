//! The search: iterative deepening with aspiration windows over a
//! negamax alpha-beta with quiescence, null-move pruning, late-move
//! reductions, futility pruning, killer and history ordering, and the
//! transposition table. Scores stay inside the engine's score range;
//! the stop sentinel is the one value outside it.

use vstd::prelude::*;

use crate::attacks::AttackLookup;
use crate::board::Board;
use crate::moves::Move;
use crate::moves::MoveType;
use crate::movegen::generate_captures;
use crate::movegen::generate_moves;
use crate::movegen::Moves;
use crate::network::spec_net_eval;
use crate::nnue::Nnue;
use crate::scores::spec_eval_of;
use crate::piece::PieceColor;
use crate::piece::PieceType;
use crate::tt::bits_to_score;
use crate::tt::th_depth;
use crate::tt::th_flags;
use crate::tt::th_key;
use crate::tt::th_score_bits;
use crate::tt::HashFlags;
use crate::tt::THash;
use crate::tt::TTable;
use crate::zobrist::ZobristKeys;

verus! {

pub const MIN_SCORE: i32 = -50000;

pub const MAX_SCORE: i32 = 50000;

pub const MATE_VALUE: i32 = 49000;

pub const MATE_SCORE: i32 = 48000;

pub const MAX_PLY: usize = 128;

pub const STOPPED: i32 = -1000000;

pub const VAL_WINDOW: i32 = 50;

/// Relies on std's `SystemTime` for a wall-clock millisecond count.
/// Nothing is assumed about the value.
#[verifier::external_body]
fn now_millis() -> u64 {
    match std::time::SystemTime::now().duration_since(std::time::UNIX_EPOCH) {
        Ok(d) => d.as_millis() as u64,
        Err(_) => 0,
    }
}

#[verifier::external_type_specification]
#[verifier::external_body]
#[verifier::reject_recursive_types(T)]
pub struct ExReceiver<T>(std::sync::mpsc::Receiver<T>);

/// Relies on std's `mpsc::Receiver::try_recv` to see whether a stop
/// message arrived. Nothing is assumed about the answer.
#[verifier::external_body]
fn stop_requested(rx: &std::sync::mpsc::Receiver<()>) -> bool {
    rx.try_recv().is_ok()
}

/// Halve toward zero, as the stand-pat blend does.
pub open spec fn spec_half_toward_zero(x: int) -> int {
    if x >= 0 {
        x / 2
    } else {
        -((-x) / 2)
    }
}

/// The quiescence stand pat: the network's verdict blended with the
/// incremental evaluation, halved toward zero.
pub open spec fn spec_stand_pat(net: int, ev: int) -> int {
    spec_half_toward_zero(net + ev)
}

/// The hash already occurred below `ply` in the current line.
pub open spec fn spec_repetition(s: GrandChessEngine, hash: u64, ply: int) -> bool {
    exists|i: int| 0 <= i < ply && s.repetition_table[i] == hash
}

/// The score a transposition hit on this position would hand back at
/// `ply`: the stored score, mate-unadjusted, clamped into score range.
pub open spec fn spec_tt_exact_score(s: GrandChessEngine, b: Board, ply: int) -> int {
    let v = s.tt.entries[(b.hash as int) % (s.tt.entries.len() as int)];
    let sc = bits_to_score(th_score_bits(v));
    let un: int = if sc > 48000 {
        sc - ply
    } else if sc < -48000 {
        sc + ply
    } else {
        sc as int
    };
    if un > 50000 {
        50000int
    } else if un < -50000 {
        -50000int
    } else {
        un
    }
}

/// The order weight of a move in the main search, per the ordering
/// table: the transposition best move, then the previous principal
/// variation, then captures by most-valuable-victim and
/// least-valuable-attacker, then the two killers, then history.
pub open spec fn spec_score_move(s: GrandChessEngine, m: Move, ply: int, best_move: Move) -> int {
    if m == best_move {
        200000
    } else if m == s.pv_table[0]@[ply] {
        100000
    } else if m.spec_captured() != PieceType::Empty {
        (6 - m.spec_piece().spec_type().idx()) + m.spec_captured().idx() * 100 + 10000
    } else if s.killer_moves[0]@[ply] == m {
        9000
    } else if s.killer_moves[1]@[ply] == m {
        8000
    } else if m.spec_piece().idx() >= 12 {
        0
    } else {
        s.history_moves[m.spec_piece().idx()]@[m.spec_to() as int] as int
    }
}

/// The order weight of a capture in quiescence: the best move first,
/// then most valuable victim, least valuable attacker.
pub open spec fn spec_score_capture(m: Move, best_move: Move) -> int {
    if m == best_move {
        100000
    } else {
        (6 - m.spec_piece().spec_type().idx()) + m.spec_captured().idx() * 100
    }
}

/// One depth's report from the iterative deepening loop.
pub struct SearchInfo {
    pub depth: u32,
    pub score_cp: Option<i32>,
    pub score_mate: Option<i32>,
    pub nodes: u64,
    pub time_ms: u64,
    pub pv: Vec<Move>,
}

/// The engine: board, evaluator, tables and per-ply search state.
pub struct GrandChessEngine {
    pub node_count: u64,
    pub max_time: Option<u64>,
    pub ply_offset: u32,
    pub tt: TTable,
    pub pv_length: Vec<usize>,
    pub pv_table: Vec<Vec<Move>>,
    pub killer_moves: Vec<Vec<Move>>,
    pub history_moves: Vec<Vec<u32>>,
    pub repetition_table: Vec<u64>,
    pub board: Board,
    pub nnue: Nnue,
    pub stop: bool,
    pub dont_stop: bool,
    pub keys: ZobristKeys,
    pub tables: AttackLookup,
}

/// Fill a vector with copies of a value.
fn filled_moves(n: usize) -> (r: Vec<Move>)
    ensures
        r.len() == n,
{
    let mut r: Vec<Move> = Vec::new();
    while r.len() < n
        invariant
            r.len() <= n,
        decreases n - r.len(),
    {
        r.push(Move::null());
    }
    r
}

fn filled_u32(n: usize) -> (r: Vec<u32>)
    ensures
        r.len() == n,
{
    let mut r: Vec<u32> = Vec::new();
    while r.len() < n
        invariant
            r.len() <= n,
        decreases n - r.len(),
    {
        r.push(0);
    }
    r
}

fn filled_usize(n: usize) -> (r: Vec<usize>)
    ensures
        r.len() == n,
        forall|i: int| 0 <= i < n ==> #[trigger] r[i] == 0,
    {
    let mut r: Vec<usize> = Vec::new();
    while r.len() < n
        invariant
            r.len() <= n,
            forall|i: int| 0 <= i < r.len() ==> #[trigger] r[i] == 0,
        decreases n - r.len(),
    {
        r.push(0);
    }
    r
}

fn filled_u64(n: usize) -> (r: Vec<u64>)
    ensures
        r.len() == n,
{
    let mut r: Vec<u64> = Vec::new();
    while r.len() < n
        invariant
            r.len() <= n,
        decreases n - r.len(),
    {
        r.push(0);
    }
    r
}

/// Set one cell of a move matrix, row by row.
fn set_move_cell(table: &mut Vec<Vec<Move>>, i: usize, j: usize, m: Move)
    requires
        i < old(table).len(),
        j < old(table)[i as int]@.len(),
    ensures
        final(table).len() == old(table).len(),
        forall|k: int|
            0 <= k < old(table).len() && k != i ==> #[trigger] final(table)[k] == old(table)[k],
        final(table)[i as int]@ == old(table)[i as int]@.update(j as int, m),
    {
    let n = table[i].len();
    let mut row: Vec<Move> = Vec::new();
    let src = &table[i];
    while row.len() < n
        invariant
            row.len() <= n,
            n == src@.len(),
            src == old(table)[i as int],
            forall|k: int| 0 <= k < row.len() ==> #[trigger] row[k] == src[k],
        decreases n - row.len(),
    {
        row.push(src[row.len()]);
    }
    row[j] = m;
    proof {
        assert(row@ =~= old(table)[i as int]@.update(j as int, m));
    }
    table[i] = row;
}

fn set_u32_cell(table: &mut Vec<Vec<u32>>, i: usize, j: usize, v: u32)
    requires
        i < old(table).len(),
        j < old(table)[i as int]@.len(),
    ensures
        final(table).len() == old(table).len(),
        forall|k: int|
            0 <= k < old(table).len() && k != i ==> #[trigger] final(table)[k] == old(table)[k],
        final(table)[i as int]@ == old(table)[i as int]@.update(j as int, v),
    {
    let n = table[i].len();
    let mut row: Vec<u32> = Vec::new();
    let src = &table[i];
    while row.len() < n
        invariant
            row.len() <= n,
            n == src@.len(),
            src == old(table)[i as int],
            forall|k: int| 0 <= k < row.len() ==> #[trigger] row[k] == src[k],
        decreases n - row.len(),
    {
        row.push(src[row.len()]);
    }
    row[j] = v;
    proof {
        assert(row@ =~= old(table)[i as int]@.update(j as int, v));
    }
    table[i] = row;
}

impl GrandChessEngine {
    /// Search state of the right shape, with a consistent board.
    pub open spec fn wf(self) -> bool {
        &&& self.keys.wf()
        &&& self.tables.wf()
        &&& self.nnue.wf()
        &&& self.tt.wf()
        &&& self.board.wf()
        &&& self.board.hash_ok(self.keys)
        &&& self.board.eval_ok()
        &&& self.pv_length.len() == 128
        &&& forall|i: int| 0 <= i < 128 ==> #[trigger] self.pv_length[i] <= 128
        &&& self.pv_table.len() == 128
        &&& forall|i: int| 0 <= i < 128 ==> #[trigger] self.pv_table[i]@.len() == 128
        &&& self.killer_moves.len() == 2
        &&& forall|i: int| 0 <= i < 2 ==> #[trigger] self.killer_moves[i]@.len() == 128
        &&& self.history_moves.len() == 12
        &&& forall|i: int| 0 <= i < 12 ==> #[trigger] self.history_moves[i]@.len() == 64
        &&& self.repetition_table.len() == 128
    }

    /// An engine at the starting position with a table of `tt_bytes`.
    /// `None` means the attack tables failed their boot self-test.
    pub fn new(tt_bytes: usize) -> (r: Option<GrandChessEngine>)
        ensures
            r is Some ==> r.unwrap().wf(),
    {
        let keys = ZobristKeys::new();
        let tables = match AttackLookup::new() {
            Some(t) => t,
            None => {
                return None;
            },
        };
        let board = match Board::from_fen(
            "rnbqkbnr/pppppppp/8/8/8/8/PPPPPPPP/RNBQKBNR w KQkq - 0 1",
            &keys,
        ) {
            Ok(b) => b,
            Err(_) => {
                return None;
            },
        };

        let mut pv_table: Vec<Vec<Move>> = Vec::new();
        while pv_table.len() < 128
            invariant
                pv_table.len() <= 128,
                forall|i: int| 0 <= i < pv_table.len() ==> #[trigger] pv_table[i]@.len() == 128,
            decreases 128 - pv_table.len(),
        {
            pv_table.push(filled_moves(128));
        }
        let mut killer_moves: Vec<Vec<Move>> = Vec::new();
        while killer_moves.len() < 2
            invariant
                killer_moves.len() <= 2,
                forall|i: int|
                    0 <= i < killer_moves.len() ==> #[trigger] killer_moves[i]@.len() == 128,
            decreases 2 - killer_moves.len(),
        {
            killer_moves.push(filled_moves(128));
        }
        let mut history_moves: Vec<Vec<u32>> = Vec::new();
        while history_moves.len() < 12
            invariant
                history_moves.len() <= 12,
                forall|i: int|
                    0 <= i < history_moves.len() ==> #[trigger] history_moves[i]@.len() == 64,
            decreases 12 - history_moves.len(),
        {
            history_moves.push(filled_u32(64));
        }

        Some(
            GrandChessEngine {
                node_count: 0,
                max_time: None,
                ply_offset: 0,
                tt: TTable::new(tt_bytes),
                pv_length: filled_usize(128),
                pv_table,
                killer_moves,
                history_moves,
                repetition_table: filled_u64(128),
                board,
                nnue: Nnue::new_zero(),
                stop: false,
                dont_stop: false,
                keys,
                tables,
            },
        )
    }

    /// Whether the hash already occurred below this ply in the current
    /// line: a repetition scores as a draw.
    pub fn is_repetition(&self, hash: u64, ply: usize) -> (r: bool)
        requires
            self.wf(),
            ply <= 128,
        ensures
            r == exists|i: int| 0 <= i < ply && self.repetition_table[i] == hash,
    {
        let mut i: usize = 0;
        while i < ply
            invariant
                i <= ply,
                ply <= 128,
                self.wf(),
                forall|j: int| 0 <= j < i ==> self.repetition_table[j] != hash,
            decreases ply - i,
        {
            if self.repetition_table[i] == hash {
                return true;
            }
            i = i + 1;
        }
        false
    }

    /// Order weight of a move in the main search: exactly the ordering
    /// table `spec_score_move` writes down.
    pub fn score_move(&self, m: Move, ply: usize, best_move: Move) -> (r: u32)
        requires
            self.wf(),
            ply < 128,
        ensures
            r == spec_score_move(*self, m, ply as int, best_move),
    {
        if m == best_move {
            return 200000;
        }
        let pv_row = &self.pv_table[0];
        if m == pv_row[ply] {
            return 100000;
        }
        let capture = m.captured();
        if capture != PieceType::Empty {
            let attacker = m.piece().get_type().index() as u32;
            let a = if attacker > 6 {
                6
            } else {
                attacker
            };
            let victim = capture.index() as u32;
            (6 - a) + victim * 100 + 10000
        } else {
            let k0 = &self.killer_moves[0];
            let k1 = &self.killer_moves[1];
            if k0[ply] == m {
                9000
            } else if k1[ply] == m {
                8000
            } else {
                let pi = m.piece().index();
                if pi >= 12 {
                    0
                } else {
                    let hrow = &self.history_moves[pi];
                    hrow[m.to() as usize]
                }
            }
        }
    }

    /// Order weight of a capture in quiescence: exactly
    /// `spec_score_capture`, most valuable victim first.
    pub fn score_capture(&self, m: Move, best_move: Move) -> (r: u32)
        ensures
            r == spec_score_capture(m, best_move),
    {
        if m == best_move {
            return 100000;
        }
        let attacker = m.piece().get_type().index() as u32;
        let a = if attacker > 6 {
            6
        } else {
            attacker
        };
        let victim = m.captured().index() as u32;
        (6 - a) + victim * 100
    }

    /// Bring the best-scoring remaining move to position `i`.
    fn select_best(&self, moves: &mut Moves, i: usize, ply: usize, best_move: Move, quiesce: bool)
        requires
            self.wf(),
            ply < 128,
            i < old(moves).moves@.len(),
        ensures
            final(moves).moves@.len() == old(moves).moves@.len(),
            forall|k: int|
                0 <= k < final(moves).moves@.len() ==> old(moves).moves@.contains(
                    #[trigger] final(moves).moves@[k],
                ),
            exists|j: int|
                i <= j < old(moves).moves@.len() && final(moves).moves@ == old(
                    moves,
                ).moves@.update(i as int, old(moves).moves@[j]).update(
                    j,
                    old(moves).moves@[i as int],
                ),
    {
        let n = moves.len();
        let mut max_index = i;
        let mut j = i;
        while j < n
            invariant
                self.wf(),
                ply < 128,
                i <= max_index < n,
                i <= j <= n,
                n == moves.moves@.len(),
            decreases n - j,
        {
            let a = if quiesce {
                self.score_capture(moves.get(j), best_move)
            } else {
                self.score_move(moves.get(j), ply, best_move)
            };
            let b = if quiesce {
                self.score_capture(moves.get(max_index), best_move)
            } else {
                self.score_move(moves.get(max_index), ply, best_move)
            };
            if a > b {
                max_index = j;
            }
            j = j + 1;
        }
        let ghost pre = moves.moves@;
        moves.swap(i, max_index);
        proof {
            assert(i as int <= max_index && (max_index as int) < pre.len()
                && moves.moves@ == pre.update(i as int, pre[max_index as int]).update(
                max_index as int,
                pre[i as int],
            ));
            assert forall|k: int|
                0 <= k < moves.moves@.len() implies pre.contains(#[trigger] moves.moves@[k]) by {
                if k == i {
                    assert(moves.moves@[k] == pre[max_index as int]);
                    assert(pre.contains(pre[max_index as int]));
                } else if k == max_index {
                    assert(moves.moves@[k] == pre[i as int]);
                    assert(pre.contains(pre[i as int]));
                } else {
                    assert(moves.moves@[k] == pre[k]);
                    assert(pre.contains(pre[k]));
                }
            }
        }
    }

    /// The quiescence search: stand pat on the blended evaluation, then
    /// captures only, in victim order. If the stand pat reaches beta the
    /// answer is beta; otherwise the answer is at least the raised alpha
    /// and at most beta.
    pub fn quiescence(&mut self, ply: usize, board: &Board, alpha: i32, beta: i32) -> (r: i32)
        requires
            old(self).wf(),
            board.wf(),
            board.hash_ok(old(self).keys),
            board.eval_ok(),
            ply < 128,
            MIN_SCORE <= alpha,
            alpha < beta,
            beta <= MAX_SCORE,
        ensures
            final(self).wf(),
            final(self).keys == old(self).keys,
            final(self).tables == old(self).tables,
            final(self).board == old(self).board,
            final(self).stop == old(self).stop,
            final(self).max_time == old(self).max_time,
            final(self).pv_length == old(self).pv_length,
            final(self).pv_table == old(self).pv_table,
            final(self).tt == old(self).tt,
            MIN_SCORE <= r,
            r <= beta,
            ({
                let sp = spec_stand_pat(
                    spec_net_eval(
                        old(self).nnue.net,
                        old(self).nnue.transformer.spec_transformed(
                            old(self).nnue.acc_stack[ply as int],
                            board.current_color,
                        ),
                    ),
                    spec_eval_of(board.pieces@, board.current_color),
                );
                &&& sp >= beta ==> r == beta
                &&& sp < beta ==> r >= sp && r >= alpha
            }),
        decreases 128 - ply,
    {
        let mut alpha_m = alpha;
        let best_move = Move::null();
        let nnue_eval = self.nnue.eval(ply, board.current_color);
        proof {
            crate::scores::lemma_eval_upto_bounds(board.pieces@, 64, board.current_color);
        }
        let ghost sp = spec_stand_pat(
            spec_net_eval(
                old(self).nnue.net,
                old(self).nnue.transformer.spec_transformed(
                    old(self).nnue.acc_stack[ply as int],
                    board.current_color,
                ),
            ),
            spec_eval_of(board.pieces@, board.current_color),
        );
        let sum: i64 = nnue_eval as i64 + board.eval() as i64;
        let half: i64 = if sum >= 0 {
            ((sum as u64) / 2) as i64
        } else {
            -((((-sum) as u64) / 2) as i64)
        };
        proof {
            assert(half == sp);
        }

        if half >= beta as i64 {
            return beta;
        }
        if half > alpha_m as i64 {
            alpha_m = half as i32;
        }
        if ply + 1 >= 128 {
            return alpha_m;
        }

        let mut moves = generate_captures(board, &self.tables);

        let n = moves.len();
        let mut i: usize = 0;
        while i < n
            invariant
                self.wf(),
                self.keys == old(self).keys,
                self.tables == old(self).tables,
                self.board == old(self).board,
                self.stop == old(self).stop,
                self.max_time == old(self).max_time,
                self.pv_length == old(self).pv_length,
                self.pv_table == old(self).pv_table,
                self.tt == old(self).tt,
                board.wf(),
                board.hash_ok(self.keys),
                board.eval_ok(),
                ply + 1 < 128,
                n == moves.moves@.len(),
                i <= n,
                crate::movegen::all_ok_from(*board, moves.moves@, 0),
                MIN_SCORE <= alpha,
                alpha <= alpha_m,
                sp <= alpha_m,
                sp < beta,
                alpha_m < beta,
                beta <= MAX_SCORE,
            decreases n - i,
        {
            let ghost pre = moves.moves@;
            self.select_best(&mut moves, i, ply, best_move, true);
            proof {
                assert forall|k: int|
                    0 <= k < moves.moves@.len() implies crate::make_move::spec_move_ok(
                    *board,
                    #[trigger] moves.moves@[k],
                ) by {
                    let j = choose|j: int| 0 <= j < pre.len() && pre[j] == moves.moves@[k];
                    assert(crate::make_move::spec_move_ok(*board, pre[j]));
                }
            }
            let m = moves.get(i);
            let mut new_board = board.duplicate();
            self.nnue.make_move(&self.keys, m, &mut new_board, ply);

            let legal = !new_board.is_king_attacked(&self.tables, board.current_color);

            if legal {
                let score = -self.quiescence(ply + 1, &new_board, -beta, -alpha_m);
                if score >= beta {
                    return beta;
                }
                if score > alpha_m {
                    alpha_m = score;
                }
            }
            i = i + 1;
        }

        alpha_m
    }
}

impl GrandChessEngine {
    /// The negamax search: repetition draw, check extension, stand-down
    /// to quiescence, deadline and stop-message polling, transposition
    /// probe, null-move pruning, then the ordered move loop with
    /// futility pruning and late-move reductions. The answer is the
    /// stop sentinel (with the stop flag raised), a repetition draw, a
    /// mate value, a transposition hit, or a score inside the fail-hard
    /// window; a repetition below this ply always answers zero, and
    /// with no deadline and no stop channel the stop flag stays down.
    #[verifier::rlimit(100)]
    #[verifier::spinoff_prover]
    pub fn neg_max(
        &mut self,
        depth: i32,
        ply: usize,
        board: &Board,
        alpha: i32,
        beta: i32,
        rx: Option<&std::sync::mpsc::Receiver<()>>,
    ) -> (r: i32)
        requires
            old(self).wf(),
            board.wf(),
            board.hash_ok(old(self).keys),
            board.eval_ok(),
            ply <= 120,
            -10 <= depth <= 900,
            MIN_SCORE <= alpha,
            alpha < beta,
            beta <= MAX_SCORE,
        ensures
            final(self).wf(),
            final(self).keys == old(self).keys,
            final(self).tables == old(self).tables,
            final(self).board == old(self).board,
            final(self).max_time == old(self).max_time,
            r == STOPPED || MIN_SCORE <= r <= MAX_SCORE,
            r == STOPPED ==> final(self).stop,
            old(self).stop ==> final(self).stop,
            !old(self).stop && old(self).max_time is None && rx is None ==> !final(self).stop,
            spec_repetition(*old(self), board.hash, ply as int) ==> r == 0 && final(self).tt
                == old(self).tt,
            forall|q: int|
                0 <= q < ply ==> #[trigger] final(self).pv_length[q] == old(self).pv_length[q],
            forall|q: int|
                0 <= q < ply ==> #[trigger] final(self).pv_table[q] == old(self).pv_table[q],
            ply == 0 ==> (final(self).pv_length[0] > 0 ==> crate::make_move::spec_move_ok(
                *board,
                final(self).pv_table[0]@[0],
            )),
            r == STOPPED || r == 0 || (alpha <= r <= beta) || r == -(MATE_VALUE + depth) || r == -(
            MATE_VALUE + depth + 1) || r == spec_tt_exact_score(*old(self), *board, ply as int),
            ({
                let v = old(self).tt.entries[(board.hash as int) % (
                old(self).tt.entries.len() as int)];
                (!spec_repetition(*old(self), board.hash, ply as int) && beta - alpha == 1 && depth
                    >= 1 && ply < 120 && th_key(v) == board.hash && th_flags(v) == 0 && th_depth(v)
                    >= depth + 1) ==> (r == STOPPED || r == spec_tt_exact_score(
                    *old(self),
                    *board,
                    ply as int,
                ))
            }),
        decreases 128 - ply, depth + 11,
    {
        let mut alpha_m = alpha;
        self.pv_length[ply] = ply;

        if self.is_repetition(board.hash, ply) {
            return 0;
        }

        let in_check = board.is_king_attacked(&self.tables, board.current_color);
        let depth_e: i32 = if in_check {
            depth + 1
        } else {
            depth
        };

        if depth_e <= 0 || ply >= 120 {
            return self.quiescence(ply, board, alpha_m, beta);
        }

        if self.node_count & 16383 == 0 && !self.dont_stop {
            let timed_out = match self.max_time {
                Some(t) => now_millis() > t,
                None => false,
            };
            let stop_msg = match rx {
                Some(chan) => stop_requested(chan),
                None => false,
            };
            if timed_out || stop_msg {
                self.stop = true;
                return STOPPED;
            }
        }

        let is_pv = beta - alpha_m > 1;

        let mut best_move = Move::null();

        let entry = self.tt.probe_entry(board, board.hash, ply as u32);
        if let Some(entry) = entry {
            best_move = entry.best_move;
            if entry.depth >= depth_e && !is_pv {
                match entry.flags {
                    HashFlags::Exsact => {
                        let s = if entry.score > MAX_SCORE {
                            MAX_SCORE
                        } else if entry.score < MIN_SCORE {
                            MIN_SCORE
                        } else {
                            entry.score
                        };
                        return s;
                    },
                    HashFlags::Alpha => {
                        if entry.score <= alpha_m {
                            return alpha_m;
                        }
                    },
                    HashFlags::Beta => {
                        if entry.score >= beta {
                            return beta;
                        }
                    },
                }
            }
        }

        if !in_check && ply != 0 && !is_pv {
            let mut null_board = board.duplicate();
            self.nnue.make_null_move(&self.keys, &mut null_board, ply);
            let inner = self.neg_max(depth_e - 1 - 2, ply, &null_board, -beta, -beta + 1, rx);
            if self.stop {
                return STOPPED;
            }
            let null_score = -inner;
            if null_score >= beta {
                return beta;
            }
        }

        let mut hash_flag = HashFlags::Alpha;
        let mut moves = generate_moves(board, &self.tables);
        let mut moves_searched: u32 = 0;

        let n = moves.len();
        let mut i: usize = 0;
        while i < n
            invariant
                self.wf(),
                self.keys == old(self).keys,
                self.tables == old(self).tables,
                self.board == old(self).board,
                self.max_time == old(self).max_time,
                old(self).stop ==> self.stop,
                !old(self).stop && old(self).max_time is None && rx is None ==> !self.stop,
                board.wf(),
                board.hash_ok(self.keys),
                board.eval_ok(),
                ply < 120,
                1 <= depth_e <= 901,
                n == moves.moves@.len(),
                i <= n,
                crate::movegen::all_ok_from(*board, moves.moves@, 0),
                MIN_SCORE <= alpha,
                alpha <= alpha_m,
                alpha_m < beta,
                beta <= MAX_SCORE,
                !spec_repetition(*old(self), board.hash, ply as int),
                forall|q: int|
                    0 <= q < ply ==> #[trigger] self.pv_length[q] == old(self).pv_length[q],
                forall|q: int|
                    0 <= q < ply ==> #[trigger] self.pv_table[q] == old(self).pv_table[q],
                ply == 0 ==> (self.pv_length[0] > 0 ==> crate::make_move::spec_move_ok(
                    *board,
                    self.pv_table[0]@[0],
                )),
                ({
                    let v = old(self).tt.entries[(board.hash as int) % (
                    old(self).tt.entries.len() as int)];
                    !(beta - alpha == 1 && depth >= 1 && ply < 120 && th_key(v) == board.hash
                        && th_flags(v) == 0 && th_depth(v) >= depth + 1)
                }),
            decreases n - i,
        {
            let ghost pre = moves.moves@;
            self.select_best(&mut moves, i, ply, best_move, false);
            proof {
                assert forall|k: int|
                    0 <= k < moves.moves@.len() implies crate::make_move::spec_move_ok(
                    *board,
                    #[trigger] moves.moves@[k],
                ) by {
                    let j = choose|j: int| 0 <= j < pre.len() && pre[j] == moves.moves@[k];
                    assert(crate::make_move::spec_move_ok(*board, pre[j]));
                }
            }
            let m = moves.get(i);
            let mut new_board = board.duplicate();
            self.nnue.make_move(&self.keys, m, &mut new_board, ply);

            let mut legal = !new_board.is_king_attacked(&self.tables, board.current_color);
            if legal && m.move_type() == MoveType::KingCastle {
                let castle_target: usize = if board.current_color == PieceColor::White {
                    5
                } else {
                    61
                };
                if new_board.is_square_attacked(
                    &self.tables,
                    castle_target,
                    new_board.current_color,
                ) {
                    legal = false;
                }
                if in_check {
                    legal = false;
                }
            } else if legal && m.move_type() == MoveType::QueenCastle {
                let castle_target: usize = if board.current_color == PieceColor::White {
                    3
                } else {
                    59
                };
                if new_board.is_square_attacked(
                    &self.tables,
                    castle_target,
                    new_board.current_color,
                ) {
                    legal = false;
                }
                if in_check {
                    legal = false;
                }
            }

            if legal {
                let quiet = m.captured() == PieceType::Empty && m.move_type() != MoveType::Promote
                    && m.move_type() != MoveType::EnPassantCapture;

                let mut pruned = false;
                if !in_check && !is_pv && moves_searched > 0 && depth_e <= 3 && quiet {
                    proof {
                        crate::scores::lemma_eval_upto_bounds(
                            new_board.pieces@,
                            64,
                            new_board.current_color,
                        );
                    }
                    let margin: i32 = if depth_e == 1 {
                        200
                    } else if depth_e == 2 {
                        300
                    } else {
                        700
                    };
                    let eval_after = -new_board.eval();
                    if eval_after + margin <= alpha_m && !new_board.is_king_attacked(
                        &self.tables,
                        new_board.current_color,
                    ) {
                        pruned = true;
                    }
                }

                if !pruned {
                    let score: i32 = if moves_searched == 0 {
                        self.repetition_table[ply + 1] = new_board.hash;
                        let inner = self.neg_max(
                            depth_e - 1,
                            ply + 1,
                            &new_board,
                            -beta,
                            -alpha_m,
                            rx,
                        );
                        if inner == STOPPED {
                            return STOPPED;
                        }
                        -inner
                    } else {
                        let reduced: i32 = if moves_searched >= 4 && depth_e >= 3 && !in_check
                            && quiet {
                            self.repetition_table[ply + 1] = new_board.hash;
                            let inner = self.neg_max(
                                depth_e - 2,
                                ply + 1,
                                &new_board,
                                -alpha_m - 1,
                                -alpha_m,
                                rx,
                            );
                            if inner == STOPPED {
                                return STOPPED;
                            }
                            -inner
                        } else {
                            alpha_m + 1
                        };
                        if reduced > alpha_m {
                            self.repetition_table[ply + 1] = new_board.hash;
                            let inner = self.neg_max(
                                depth_e - 1,
                                ply + 1,
                                &new_board,
                                -beta,
                                -alpha_m,
                                rx,
                            );
                            if inner == STOPPED {
                                return STOPPED;
                            }
                            -inner
                        } else {
                            reduced
                        }
                    };

                    self.node_count = self.node_count.wrapping_add(1);
                    moves_searched = if moves_searched < 0xffff_ffffu32 {
                        moves_searched + 1
                    } else {
                        moves_searched
                    };

                    if self.stop {
                        return STOPPED;
                    }

                    if score > alpha_m {
                        alpha_m = score;
                        best_move = m;
                        hash_flag = HashFlags::Exsact;

                        if quiet {
                            let pi = m.piece().index();
                            if pi < 12 {
                                let to = m.to() as usize;
                                let hrow = &self.history_moves[pi];
                                let old_h = hrow[to];
                                let bump = old_h.wrapping_add(depth_e as u32);
                                set_u32_cell(&mut self.history_moves, pi, to, bump);
                            }
                        }

                        set_move_cell(&mut self.pv_table, ply, ply, m);
                        let child_len = self.pv_length[ply + 1];
                        let mut next_ply = ply + 1;
                        while next_ply < child_len
                            invariant
                                self.wf(),
                                self.keys == old(self).keys,
                                self.tables == old(self).tables,
                                self.board == old(self).board,
                                self.max_time == old(self).max_time,
                                old(self).stop ==> self.stop,
                                !old(self).stop && old(self).max_time is None && rx is None
                                    ==> !self.stop,
                                child_len <= 128,
                                ply + 1 <= next_ply,
                                next_ply <= 128,
                                ply < 120,
                                forall|q: int|
                                    0 <= q < ply ==> #[trigger] self.pv_length[q] == old(
                                        self,
                                    ).pv_length[q],
                                forall|q: int|
                                    0 <= q < ply ==> #[trigger] self.pv_table[q] == old(
                                        self,
                                    ).pv_table[q],
                                ply == 0 ==> crate::make_move::spec_move_ok(
                                    *board,
                                    self.pv_table[0]@[0],
                                ),
                            decreases child_len - next_ply,
                        {
                            let row = &self.pv_table[ply + 1];
                            let mv = row[next_ply];
                            set_move_cell(&mut self.pv_table, ply, next_ply, mv);
                            next_ply = next_ply + 1;
                        }
                        self.pv_length[ply] = child_len;
                    }

                    if score >= beta {
                        self.tt.write_entry(
                            THash::new(board.hash, depth_e, score, best_move, HashFlags::Beta),
                            ply as u32,
                        );
                        if quiet {
                            let k0 = &self.killer_moves[0];
                            let prev_killer = k0[ply];
                            set_move_cell(&mut self.killer_moves, 1, ply, prev_killer);
                            set_move_cell(&mut self.killer_moves, 0, ply, m);
                        }
                        return beta;
                    }
                }
            }
            i = i + 1;
        }

        if moves_searched == 0 {
            if in_check {
                return -(MATE_VALUE + depth_e);
            } else {
                return 0;
            }
        }

        self.tt.write_entry(
            THash::new(board.hash, depth_e, alpha_m, best_move, hash_flag),
            ply as u32,
        );
        alpha_m
    }

    /// Iterative deepening with aspiration windows: search each depth,
    /// report it, and narrow the window around the score; a result
    /// outside the window is re-searched at full width. Stops on the
    /// depth limit, the deadline, a stop message, or a forced mate.
    /// The reports carry depths 1, 2, 3, ... in order, and with no
    /// deadline and no stop channel at least the first depth reports.
    pub fn go(
        &mut self,
        depth_limit: u32,
        movetime: Option<u64>,
        rx: Option<&std::sync::mpsc::Receiver<()>>,
    ) -> (r: (Option<Move>, Vec<SearchInfo>))
        requires
            old(self).wf(),
        ensures
            final(self).wf(),
            forall|k: int| 0 <= k < r.1.len() ==> #[trigger] r.1[k].depth == k + 1,
            movetime is None && rx is None && depth_limit >= 1 ==> r.1.len() >= 1,
            r.0 is Some ==> crate::make_move::spec_move_ok(old(self).board, r.0.unwrap()),
            r.1.len() > 0 && r.1[r.1.len() - 1].pv.len() > 0 ==> r.0 == Some(
                r.1[r.1.len() - 1].pv@[0],
            ),
    {
        let board = self.board.duplicate();
        self.nnue.refresh_board(&board, 0);
        self.stop = false;
        self.max_time = match movetime {
            Some(t) => Some(now_millis().wrapping_add(t)),
            None => None,
        };

        let mut best: Option<Move> = None;
        let mut infos: Vec<SearchInfo> = Vec::new();

        let mut alpha: i32 = MIN_SCORE;
        let mut beta: i32 = MAX_SCORE;
        let limit: u32 = if depth_limit > 900 {
            900
        } else {
            depth_limit
        };
        self.dont_stop = true;
        let mut d: u32 = 1;
        while d <= limit
            invariant_except_break
                infos.len() + 1 == d,
            invariant
                self.wf(),
                board.wf(),
                board.hash_ok(self.keys),
                board.eval_ok(),
                board.pieces@ == old(self).board.pieces@,
                board.current_color == old(self).board.current_color,
                best is Some ==> crate::make_move::spec_move_ok(old(self).board, best.unwrap()),
                infos.len() > 0 && infos[infos.len() - 1].pv.len() > 0 ==> best == Some(
                    infos[infos.len() - 1].pv@[0],
                ),
                1 <= d,
                d <= limit + 1,
                MIN_SCORE <= alpha,
                alpha < beta,
                beta <= MAX_SCORE,
                limit <= 900,
                movetime is None ==> self.max_time is None,
                movetime is None && rx is None ==> !self.stop,
                forall|k: int| 0 <= k < infos.len() ==> #[trigger] infos[k].depth == k + 1,
            ensures
                self.wf(),
                forall|k: int| 0 <= k < infos.len() ==> #[trigger] infos[k].depth == k + 1,
                movetime is None && rx is None && limit >= 1 ==> infos.len() >= 1,
                best is Some ==> crate::make_move::spec_move_ok(old(self).board, best.unwrap()),
                infos.len() > 0 && infos[infos.len() - 1].pv.len() > 0 ==> best == Some(
                    infos[infos.len() - 1].pv@[0],
                ),
            decreases limit - d + 1,
        {
            let start = now_millis();
            self.node_count = 0;
            let mut score = self.neg_max(d as i32, 0, &board, alpha, beta, rx);
            self.dont_stop = false;
            if self.stop {
                break ;
            }
            if score <= alpha || score >= beta {
                alpha = MIN_SCORE;
                beta = MAX_SCORE;
                score = self.neg_max(d as i32, 0, &board, alpha, beta, rx);
                if self.stop {
                    break ;
                }
            }

            let elapsed = now_millis().wrapping_sub(start);

            let pv_len = self.pv_length[0];
            let mut pv: Vec<Move> = Vec::new();
            let mut k: usize = 0;
            while k < pv_len
                invariant
                    self.wf(),
                    pv_len <= 128,
                    k <= pv_len,
                    pv.len() == k,
                    forall|j: int| 0 <= j < k ==> #[trigger] pv[j] == self.pv_table[0]@[j],
                decreases pv_len - k,
            {
                let row = &self.pv_table[0];
                pv.push(row[k]);
                k = k + 1;
            }
            if pv.len() > 0 {
                proof {
                    assert(crate::make_move::spec_move_ok(board, pv@[0]));
                    assert(crate::make_move::spec_move_ok(old(self).board, pv@[0]));
                }
                best = Some(pv[0]);
            }

            if score > MATE_SCORE {
                let diff = MATE_VALUE + (d as i32) + 2 - score;
                let mate = if diff >= 2 {
                    ((diff as u32) / 2) as i32
                } else {
                    1
                };
                infos.push(
                    SearchInfo {
                        depth: d,
                        score_cp: None,
                        score_mate: Some(mate),
                        nodes: self.node_count,
                        time_ms: elapsed,
                        pv,
                    },
                );
                break ;
            } else if score < -MATE_SCORE {
                let diff = MATE_VALUE + (d as i32) + 2 + score;
                let mate = if diff >= 2 {
                    ((diff as u32) / 2) as i32
                } else {
                    1
                };
                infos.push(
                    SearchInfo {
                        depth: d,
                        score_cp: None,
                        score_mate: Some(-mate),
                        nodes: self.node_count,
                        time_ms: elapsed,
                        pv,
                    },
                );
                break ;
            } else {
                infos.push(
                    SearchInfo {
                        depth: d,
                        score_cp: Some(score),
                        score_mate: None,
                        nodes: self.node_count,
                        time_ms: elapsed,
                        pv,
                    },
                );
            }

            alpha = if score - VAL_WINDOW < MIN_SCORE {
                MIN_SCORE
            } else {
                score - VAL_WINDOW
            };
            beta = if score + VAL_WINDOW > MAX_SCORE {
                MAX_SCORE
            } else {
                score + VAL_WINDOW
            };
            if alpha >= beta {
                alpha = MIN_SCORE;
                beta = MAX_SCORE;
            }
            d = d + 1;
        }
        self.dont_stop = false;

        self.max_time = None;
        self.pv_length = filled_usize(128);
        self.repetition_table = filled_u64(128);

        (best, infos)
    }
}

} // verus!
