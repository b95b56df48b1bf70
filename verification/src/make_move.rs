//! Making a move on the board.
//!
//! `make_move` takes a pseudo-legal move and mutates the board in place:
//! mailbox, bitboards, Zobrist hash, castle rights, en-passant square,
//! incremental evaluation and side to move all stay consistent, and the
//! piece movements are recorded for the evaluator's incremental update.
//! The whole outcome is pinned square by square, so repeating the same
//! move on an equal board gives an equal board.

use vstd::prelude::*;

use vstd::pervasive::unreached;

use crate::board::ep_key;
use crate::board::side_val;
use crate::board::Board;
use crate::board::PieceDelta;
use crate::board::PiecesDelta;
use crate::board::BLACK_KINGSIDE_CASTLING;
use crate::board::BLACK_QUEENSIDE_CASTLING;
use crate::board::WHITE_KINGSIDE_CASTLING;
use crate::board::WHITE_QUEENSIDE_CASTLING;
use crate::moves::Move;
use crate::moves::MoveType;
use crate::piece::Piece;
use crate::piece::PieceColor;
use crate::piece::PieceType;
use crate::scores::lemma_eval_upto_bounds;
use crate::scores::lemma_eval_upto_negate;
use crate::zobrist::ZobristKeys;

verus! {

/// The square of the pawn an en-passant capture takes: one rank behind
/// the capturing pawn's destination.
pub open spec fn spec_ep_capture_sq(m: Move) -> int {
    if m.spec_piece() == Piece::WhitePawn {
        m.spec_to() - 8
    } else {
        m.spec_to() + 8
    }
}

/// The rook's origin for a castle, fixed by the king's destination.
pub open spec fn spec_rook_from(to: int) -> int {
    if to == 2 {
        0
    } else if to == 6 {
        7
    } else if to == 58 {
        56
    } else {
        63
    }
}

/// The rook's destination for a castle, fixed by the king's destination.
pub open spec fn spec_rook_to(to: int) -> int {
    if to == 2 {
        3
    } else if to == 6 {
        5
    } else if to == 58 {
        59
    } else {
        61
    }
}

/// A move fits the board: the moved piece stands on its origin square
/// with the side to move's colour, the destination holds exactly what
/// the move claims to capture, and the fixed castle and en-passant
/// squares hold what those moves need.
pub open spec fn spec_move_ok(b: Board, m: Move) -> bool {
    let from = m.spec_from() as int;
    let to = m.spec_to() as int;
    let mt = m.spec_move_type();
    let piece = m.spec_piece();
    let cap = m.spec_captured();
    let stm = b.current_color;
    let mb = b.pieces@;
    &&& piece != Piece::Empty
    &&& piece.spec_color() == stm
    &&& from != to
    &&& match mt {
        MoveType::Promote => {
            &&& mb[from] == Piece::spec_new(PieceType::Pawn, stm)
            &&& (piece.spec_type() == PieceType::Knight || piece.spec_type() == PieceType::Bishop
                || piece.spec_type() == PieceType::Rook || piece.spec_type() == PieceType::Queen)
            &&& if cap == PieceType::Empty {
                mb[to] == Piece::Empty
            } else {
                mb[to] == Piece::spec_new(cap, stm.spec_opposite())
            }
        },
        MoveType::EnPassantCapture => {
            &&& piece == Piece::spec_new(PieceType::Pawn, stm)
            &&& cap == PieceType::Pawn
            &&& mb[from] == piece
            &&& mb[to] == Piece::Empty
            &&& 0 <= spec_ep_capture_sq(m) < 64
            &&& spec_ep_capture_sq(m) != from
            &&& spec_ep_capture_sq(m) != to
            &&& mb[spec_ep_capture_sq(m)] == Piece::spec_new(PieceType::Pawn, stm.spec_opposite())
        },
        MoveType::KingCastle => {
            &&& piece == Piece::spec_new(PieceType::King, stm)
            &&& cap == PieceType::Empty
            &&& from == if stm == PieceColor::White {
                4int
            } else {
                60int
            }
            &&& to == if stm == PieceColor::White {
                6int
            } else {
                62int
            }
            &&& mb[from] == piece
            &&& mb[to] == Piece::Empty
            &&& mb[spec_rook_from(to)] == Piece::spec_new(PieceType::Rook, stm)
            &&& mb[spec_rook_to(to)] == Piece::Empty
        },
        MoveType::QueenCastle => {
            &&& piece == Piece::spec_new(PieceType::King, stm)
            &&& cap == PieceType::Empty
            &&& from == if stm == PieceColor::White {
                4int
            } else {
                60int
            }
            &&& to == if stm == PieceColor::White {
                2int
            } else {
                58int
            }
            &&& mb[from] == piece
            &&& mb[to] == Piece::Empty
            &&& mb[spec_rook_from(to)] == Piece::spec_new(PieceType::Rook, stm)
            &&& mb[spec_rook_to(to)] == Piece::Empty
        },
        _ => {
            &&& mb[from] == piece
            &&& if cap == PieceType::Empty {
                mb[to] == Piece::Empty
            } else {
                mb[to] == Piece::spec_new(cap, stm.spec_opposite())
            }
        },
    }
}

/// The mailbox after a move: captured piece off, mover placed, origin
/// cleared, and for castles the rook moved; updates in the order the
/// code applies them.
pub open spec fn spec_mb_after(mb: Seq<Piece>, m: Move, stm: PieceColor) -> Seq<Piece> {
    let from = m.spec_from() as int;
    let to = m.spec_to() as int;
    let mt = m.spec_move_type();
    let piece = m.spec_piece();
    let cap = m.spec_captured();
    let mb1 = if mt == MoveType::EnPassantCapture {
        mb.update(spec_ep_capture_sq(m), Piece::Empty)
    } else if cap != PieceType::Empty {
        mb.update(to, Piece::Empty)
    } else {
        mb
    };
    let mb2 = mb1.update(to, piece);
    let mb3 = mb2.update(from, Piece::Empty);
    if mt == MoveType::KingCastle || mt == MoveType::QueenCastle {
        mb3.update(spec_rook_from(to), Piece::Empty).update(
            spec_rook_to(to),
            Piece::spec_new(PieceType::Rook, stm),
        )
    } else {
        mb3
    }
}

/// The castle rights after a move: a rook leaving its corner, a king
/// moving, or a rook captured in its corner clears the matching right.
pub open spec fn spec_flags_after(flags: u8, m: Move) -> u8 {
    let from = m.spec_from() as int;
    let to = m.spec_to() as int;
    let piece = m.spec_piece();
    let cap = m.spec_captured();
    let f1 = if piece == Piece::WhiteRook && from == 0 {
        flags & !WHITE_QUEENSIDE_CASTLING
    } else if piece == Piece::WhiteRook && from == 7 {
        flags & !WHITE_KINGSIDE_CASTLING
    } else if piece == Piece::BlackRook && from == 56 {
        flags & !BLACK_QUEENSIDE_CASTLING
    } else if piece == Piece::BlackRook && from == 63 {
        flags & !BLACK_KINGSIDE_CASTLING
    } else {
        flags
    };
    let f2 = if piece == Piece::WhiteKing {
        f1 & !(WHITE_KINGSIDE_CASTLING | WHITE_QUEENSIDE_CASTLING)
    } else if piece == Piece::BlackKing {
        f1 & !(BLACK_KINGSIDE_CASTLING | BLACK_QUEENSIDE_CASTLING)
    } else {
        f1
    };
    if cap == PieceType::Rook && to == 0 {
        f2 & !WHITE_QUEENSIDE_CASTLING
    } else if cap == PieceType::Rook && to == 7 {
        f2 & !WHITE_KINGSIDE_CASTLING
    } else if cap == PieceType::Rook && to == 56 {
        f2 & !BLACK_QUEENSIDE_CASTLING
    } else if cap == PieceType::Rook && to == 63 {
        f2 & !BLACK_KINGSIDE_CASTLING
    } else {
        f2
    }
}

/// The en-passant square after a move: the landing square of a double
/// push, else nothing.
pub open spec fn spec_ep_after(m: Move) -> Option<u32> {
    if m.spec_move_type() == MoveType::DoublePush {
        Some(m.spec_to())
    } else {
        None
    }
}

/// The piece movements a move produces, in the order they are recorded:
/// capture first, then the mover (a promotion vanishes the pawn and
/// conjures the promoted piece), then the castle rook.
pub open spec fn spec_deltas_of(m: Move, stm: PieceColor) -> Seq<PieceDelta> {
    let from = m.spec_from();
    let to = m.spec_to();
    let mt = m.spec_move_type();
    let piece = m.spec_piece();
    let cap = m.spec_captured();
    let cap_part: Seq<PieceDelta> = if mt == MoveType::EnPassantCapture {
        seq![
            PieceDelta {
                to: 64,
                from: spec_ep_capture_sq(m) as u32,
                piece: Piece::spec_new(PieceType::Pawn, stm.spec_opposite()),
            },
        ]
    } else if cap != PieceType::Empty {
        seq![PieceDelta { to: 64, from: to, piece: Piece::spec_new(cap, stm.spec_opposite()) }]
    } else {
        Seq::empty()
    };
    let move_part: Seq<PieceDelta> = if mt == MoveType::Promote {
        seq![
            PieceDelta { to: 64, from: from, piece: Piece::spec_new(PieceType::Pawn, stm) },
            PieceDelta { to: to, from: 64, piece: piece },
        ]
    } else {
        seq![PieceDelta { to: to, from: from, piece: piece }]
    };
    let rook_part: Seq<PieceDelta> = if mt == MoveType::KingCastle || mt == MoveType::QueenCastle {
        seq![
            PieceDelta {
                to: spec_rook_to(to as int) as u32,
                from: spec_rook_from(to as int) as u32,
                piece: Piece::spec_new(PieceType::Rook, stm),
            },
        ]
    } else {
        Seq::empty()
    };
    cap_part + move_part + rook_part
}

/// Clearing castle bits keeps the byte in its low nibble.
proof fn lemma_flags_nibble(f: u8, mask: u8)
    requires
        f < 16,
    ensures
        (f & !mask) < 16,
{
    assert(f < 16 ==> (f & !mask) < 16) by (bit_vector);
}

/// The hash bookkeeping of a move outside the piece part: the old castle
/// key goes out, the new one comes in, the en-passant keys are toggled
/// and the side key flips. Stated for each combination of present keys.
proof fn lemma_move_hash(p: u64, c1: u64, c2: u64, e1: u64, e2: u64, s1: u64, s2: u64, side: u64)
    requires
        s1 == 0 ==> s2 == side,
        s1 == side ==> s2 == 0,
        s1 == 0 || s1 == side,
    ensures
        ((((((((p ^ c1) ^ e1) ^ s1) ^ c1) ^ c2) ^ e1) ^ e2) ^ side) == ((p ^ c2) ^ e2) ^ s2,
        e1 == 0 ==> (((((((p ^ c1) ^ e1) ^ s1) ^ c1) ^ c2) ^ e2) ^ side) == ((p ^ c2) ^ e2) ^ s2,
        e2 == 0 ==> (((((((p ^ c1) ^ e1) ^ s1) ^ c1) ^ c2) ^ e1) ^ side) == ((p ^ c2) ^ e2) ^ s2,
        e1 == 0 && e2 == 0 ==> ((((((p ^ c1) ^ e1) ^ s1) ^ c1) ^ c2) ^ side) == ((p ^ c2) ^ e2)
            ^ s2,
{
    assert((s1 == 0 && s2 == side) ==> (((((((((p ^ c1) ^ e1) ^ s1) ^ c1) ^ c2) ^ e1) ^ e2) ^ side)
        == ((p ^ c2) ^ e2) ^ s2 && (e1 == 0 ==> (((((((p ^ c1) ^ e1) ^ s1) ^ c1) ^ c2) ^ e2)
        ^ side) == ((p ^ c2) ^ e2) ^ s2) && (e2 == 0 ==> (((((((p ^ c1) ^ e1) ^ s1) ^ c1) ^ c2)
        ^ e1) ^ side) == ((p ^ c2) ^ e2) ^ s2) && (e1 == 0 && e2 == 0 ==> ((((((p ^ c1) ^ e1) ^ s1)
        ^ c1) ^ c2) ^ side) == ((p ^ c2) ^ e2) ^ s2))) by (bit_vector);
    assert((s1 == side && s2 == 0) ==> (((((((((p ^ c1) ^ e1) ^ s1) ^ c1) ^ c2) ^ e1) ^ e2) ^ side)
        == ((p ^ c2) ^ e2) ^ s2 && (e1 == 0 ==> (((((((p ^ c1) ^ e1) ^ s1) ^ c1) ^ c2) ^ e2)
        ^ side) == ((p ^ c2) ^ e2) ^ s2) && (e2 == 0 ==> (((((((p ^ c1) ^ e1) ^ s1) ^ c1) ^ c2)
        ^ e1) ^ side) == ((p ^ c2) ^ e2) ^ s2) && (e1 == 0 && e2 == 0 ==> ((((((p ^ c1) ^ e1) ^ s1)
        ^ c1) ^ c2) ^ side) == ((p ^ c2) ^ e2) ^ s2))) by (bit_vector);
}

impl Board {
    /// Whether `m` fits this board, as `make_move` requires.
    pub fn move_applies(&self, m: Move) -> (r: bool)
        requires
            self.wf(),
        ensures
            r == spec_move_ok(*self, m),
    {
        let from = m.from() as usize;
        let to = m.to() as usize;
        let mt = m.move_type();
        let piece = m.piece();
        let cap = m.captured();
        let stm = self.current_color;

        if piece == Piece::Empty || piece.get_color() != stm || from == to {
            return false;
        }

        match mt {
            MoveType::Promote => {
                let t = piece.get_type();
                self.pieces[from] == Piece::new(PieceType::Pawn, stm) && (t == PieceType::Knight
                    || t == PieceType::Bishop || t == PieceType::Rook || t == PieceType::Queen)
                    && (if cap == PieceType::Empty {
                    self.pieces[to] == Piece::Empty
                } else {
                    self.pieces[to] == Piece::new(cap, stm.opposite())
                })
            },
            MoveType::EnPassantCapture => {
                if piece != Piece::new(PieceType::Pawn, stm) || cap != PieceType::Pawn {
                    return false;
                }
                if piece == Piece::WhitePawn && to < 8 {
                    return false;
                }
                if piece != Piece::WhitePawn && to + 8 >= 64 {
                    return false;
                }
                let cap_sq = if piece == Piece::WhitePawn {
                    to - 8
                } else {
                    to + 8
                };
                self.pieces[from] == piece && self.pieces[to] == Piece::Empty && cap_sq != from
                    && cap_sq != to && self.pieces[cap_sq] == Piece::new(
                    PieceType::Pawn,
                    stm.opposite(),
                )
            },
            MoveType::KingCastle => {
                let want_from: usize = if stm == PieceColor::White {
                    4
                } else {
                    60
                };
                let want_to: usize = if stm == PieceColor::White {
                    6
                } else {
                    62
                };
                let rf: usize = if stm == PieceColor::White {
                    7
                } else {
                    63
                };
                let rt: usize = if stm == PieceColor::White {
                    5
                } else {
                    61
                };
                piece == Piece::new(PieceType::King, stm) && cap == PieceType::Empty && from
                    == want_from && to == want_to && self.pieces[from] == piece && self.pieces[to]
                    == Piece::Empty && self.pieces[rf] == Piece::new(PieceType::Rook, stm)
                    && self.pieces[rt] == Piece::Empty
            },
            MoveType::QueenCastle => {
                let want_from: usize = if stm == PieceColor::White {
                    4
                } else {
                    60
                };
                let want_to: usize = if stm == PieceColor::White {
                    2
                } else {
                    58
                };
                let rf: usize = if stm == PieceColor::White {
                    0
                } else {
                    56
                };
                let rt: usize = if stm == PieceColor::White {
                    3
                } else {
                    59
                };
                piece == Piece::new(PieceType::King, stm) && cap == PieceType::Empty && from
                    == want_from && to == want_to && self.pieces[from] == piece && self.pieces[to]
                    == Piece::Empty && self.pieces[rf] == Piece::new(PieceType::Rook, stm)
                    && self.pieces[rt] == Piece::Empty
            },
            _ => {
                self.pieces[from] == piece && (if cap == PieceType::Empty {
                    self.pieces[to] == Piece::Empty
                } else {
                    self.pieces[to] == Piece::new(cap, stm.opposite())
                })
            },
        }
    }

    /// Make a pseudo-legal move. The mailbox, castle rights, en-passant
    /// square and side to move land exactly on their specified values,
    /// the hash and evaluation caches stay true to the new position, and
    /// the move's piece movements are appended to `delta`.
    #[verifier::rlimit(100)]
    #[verifier::spinoff_prover]
    pub fn make_move(&mut self, keys: &ZobristKeys, m: Move, delta: &mut PiecesDelta)
        requires
            old(self).wf(),
            old(self).hash_ok(*keys),
            old(self).eval_ok(),
            keys.wf(),
            spec_move_ok(*old(self), m),
        ensures
            final(self).wf(),
            final(self).hash_ok(*keys),
            final(self).eval_ok(),
            final(self).pieces@ == spec_mb_after(old(self).pieces@, m, old(self).current_color),
            final(self).castle_flags == spec_flags_after(old(self).castle_flags, m),
            final(self).last_double == spec_ep_after(m),
            final(self).current_color == old(self).current_color.spec_opposite(),
            final(delta).pieces@ == old(delta).pieces@ + spec_deltas_of(m, old(self).current_color),
    {
        let from = m.from() as usize;
        let to = m.to() as usize;
        let mt = m.move_type();
        let piece = m.piece();
        let cap = m.captured();
        let stm = self.current_color;

        // Step 1: take the captured piece off the board.
        if mt == MoveType::EnPassantCapture {
            let cap_sq = if piece == Piece::WhitePawn {
                to - 8
            } else {
                to + 8
            };
            let cap_piece = Piece::new(PieceType::Pawn, stm.opposite());
            self.remove_piece(keys, cap_sq);
            delta.push(PieceDelta { to: 64, from: cap_sq as u32, piece: cap_piece });
        } else if cap != PieceType::Empty {
            let cap_piece = Piece::new(cap, stm.opposite());
            self.remove_piece(keys, to);
            delta.push(PieceDelta { to: 64, from: to as u32, piece: cap_piece });
        }

        // Step 2: the mover lands on its destination.
        self.put_piece(keys, to, piece);

        // Step 3: the origin square empties; a promotion vanishes the pawn.
        if mt == MoveType::Promote {
            let pawn = Piece::new(PieceType::Pawn, stm);
            self.remove_piece(keys, from);
            delta.push(PieceDelta { to: 64, from: from as u32, piece: pawn });
            delta.push(PieceDelta { to: to as u32, from: 64, piece });
        } else {
            self.remove_piece(keys, from);
            delta.push(PieceDelta { to: to as u32, from: from as u32, piece });
        }

        // Step 4: a castle also moves the rook.
        if mt == MoveType::KingCastle || mt == MoveType::QueenCastle {
            let rf: usize = if to == 2 {
                0
            } else if to == 6 {
                7
            } else if to == 58 {
                56
            } else if to == 62 {
                63
            } else {
                unreached()
            };
            let rt: usize = if to == 2 {
                3
            } else if to == 6 {
                5
            } else if to == 58 {
                59
            } else if to == 62 {
                61
            } else {
                unreached()
            };
            let rook = Piece::new(PieceType::Rook, stm);
            self.remove_piece(keys, rf);
            self.put_piece(keys, rt, rook);
            delta.push(PieceDelta { to: rt as u32, from: rf as u32, piece: rook });
        }

        let ghost p_hash = keys.spec_piece_hash_upto(self.pieces@, 64);
        let ghost c1k = keys.castle_keys[self.castle_flags as int];
        let ghost e1 = ep_key(*keys, self.last_double);
        let ghost s1 = side_val(*keys, stm);

        // Step 5: castle rights; the old castle key leaves the hash,
        // the new one enters.
        let old_flags = self.castle_flags;
        self.hash = self.hash ^ keys.castle_key(old_flags);

        if piece == Piece::WhiteRook {
            if from == 0 {
                proof {
                    lemma_flags_nibble(self.castle_flags, WHITE_QUEENSIDE_CASTLING);
                }
                self.castle_flags = self.castle_flags & !WHITE_QUEENSIDE_CASTLING;
            } else if from == 7 {
                proof {
                    lemma_flags_nibble(self.castle_flags, WHITE_KINGSIDE_CASTLING);
                }
                self.castle_flags = self.castle_flags & !WHITE_KINGSIDE_CASTLING;
            }
        } else if piece == Piece::BlackRook {
            if from == 56 {
                proof {
                    lemma_flags_nibble(self.castle_flags, BLACK_QUEENSIDE_CASTLING);
                }
                self.castle_flags = self.castle_flags & !BLACK_QUEENSIDE_CASTLING;
            } else if from == 63 {
                proof {
                    lemma_flags_nibble(self.castle_flags, BLACK_KINGSIDE_CASTLING);
                }
                self.castle_flags = self.castle_flags & !BLACK_KINGSIDE_CASTLING;
            }
        }

        if piece == Piece::WhiteKing {
            proof {
                lemma_flags_nibble(
                    self.castle_flags,
                    WHITE_KINGSIDE_CASTLING | WHITE_QUEENSIDE_CASTLING,
                );
            }
            self.castle_flags = self.castle_flags & !(WHITE_KINGSIDE_CASTLING
                | WHITE_QUEENSIDE_CASTLING);
        } else if piece == Piece::BlackKing {
            proof {
                lemma_flags_nibble(
                    self.castle_flags,
                    BLACK_KINGSIDE_CASTLING | BLACK_QUEENSIDE_CASTLING,
                );
            }
            self.castle_flags = self.castle_flags & !(BLACK_KINGSIDE_CASTLING
                | BLACK_QUEENSIDE_CASTLING);
        }

        if cap == PieceType::Rook {
            if to == 0 {
                proof {
                    lemma_flags_nibble(self.castle_flags, WHITE_QUEENSIDE_CASTLING);
                }
                self.castle_flags = self.castle_flags & !WHITE_QUEENSIDE_CASTLING;
            } else if to == 7 {
                proof {
                    lemma_flags_nibble(self.castle_flags, WHITE_KINGSIDE_CASTLING);
                }
                self.castle_flags = self.castle_flags & !WHITE_KINGSIDE_CASTLING;
            } else if to == 56 {
                proof {
                    lemma_flags_nibble(self.castle_flags, BLACK_QUEENSIDE_CASTLING);
                }
                self.castle_flags = self.castle_flags & !BLACK_QUEENSIDE_CASTLING;
            } else if to == 63 {
                proof {
                    lemma_flags_nibble(self.castle_flags, BLACK_KINGSIDE_CASTLING);
                }
                self.castle_flags = self.castle_flags & !BLACK_KINGSIDE_CASTLING;
            }
        }

        self.hash = self.hash ^ keys.castle_key(self.castle_flags);

        // Step 6: the old en-passant key leaves; a double push sets the
        // new square and key, anything else clears it.
        let had_ep = self.last_double;
        if let Some(ld) = had_ep {
            self.hash = self.hash ^ keys.double_push_key(ld as usize);
        }
        if mt == MoveType::DoublePush {
            self.hash = self.hash ^ keys.double_push_key(to);
            self.last_double = Some(to as u32);
        } else {
            self.last_double = None;
        }

        // Step 7: flip the side to move; the evaluation changes sign and
        // the side key toggles.
        proof {
            lemma_eval_upto_bounds(self.pieces@, 64, stm);
        }
        self.hash = self.hash ^ keys.side();
        self.eval = -self.eval;
        self.current_color = stm.opposite();

        proof {
            lemma_eval_upto_negate(self.pieces@, 64, stm);
            let c2k = keys.castle_keys[self.castle_flags as int];
            let e2 = ep_key(*keys, self.last_double);
            let s2 = side_val(*keys, self.current_color);
            lemma_move_hash(p_hash, c1k, c2k, e1, e2, s1, s2, keys.side_key);
        }
    }
}

} // verus!
