//! FEN parsing: the six-field position notation, of which the first four
//! fields build a board; move counters are ignored.
//!
//! The grammar is written once as specification functions over the byte
//! sequence, and the parser is proved to return exactly what they say:
//! the same board on success, the same error otherwise. The board a
//! successful parse returns carries a hash and an evaluation equal to
//! the from-scratch recomputations.

use vstd::prelude::*;

use vstd::string::StrSliceExecFns;
use vstd::string::StringSliceAdditionalSpecFns;


use crate::bitboards::BitBoards;
use crate::board::Board;
use crate::piece::fen_piece_of_char;
use crate::piece::NoSuchPieceError;
use crate::piece::Piece;
use crate::piece::PieceColor;
use crate::scores::lemma_eval_upto_bounds;
use crate::scores::spec_eval_of;
use crate::scores::spec_eval_upto;
use crate::scores::piece_worth;
use crate::zobrist::lemma_xor_cancel;
use crate::zobrist::ZobristKeys;

verus! {

/// What can be wrong with a FEN string.
#[derive(Debug, Clone, Copy, PartialEq, Eq, Structural)]
pub enum FenError {
    NoSuchPiece(NoSuchPieceError),
    NoSuchColor(char),
    NoSuchCastle(char),
    EnPessentNotInRange(u32),
    InvalidEnPressant(char),
    NotEnoughInfo,
}

pub open spec fn is_ws(b: u8) -> bool {
    b == 32 || b == 9 || b == 10 || b == 13
}

/// First index at or after `i` holding a non-blank byte, or the end.
pub open spec fn spec_skip_ws(s: Seq<u8>, i: int) -> int
    decreases s.len() - i,
{
    if i < 0 || i >= s.len() || !is_ws(s[i]) {
        i
    } else {
        spec_skip_ws(s, i + 1)
    }
}

/// First index at or after `i` holding a blank byte, or the end.
pub open spec fn spec_word_end(s: Seq<u8>, i: int) -> int
    decreases s.len() - i,
{
    if i < 0 || i >= s.len() || is_ws(s[i]) {
        i
    } else {
        spec_word_end(s, i + 1)
    }
}

/// The piece-placement field: letters place pieces along rank `rank`,
/// digits skip files, a slash moves one rank down. Reading stops at a
/// blank or at the end; after the eighth rank the rest of the field is
/// ignored. A letter naming no piece, or one placed outside the board,
/// is an error.
pub open spec fn spec_place(s: Seq<u8>, i: int, rank: int, file: int, mb: Seq<Piece>) -> Result<
    (Seq<Piece>, int),
    FenError,
>
    decreases s.len() - i,
{
    if i < 0 || i >= s.len() || is_ws(s[i]) {
        Ok((mb, i))
    } else {
        let c = s[i];
        if c == 47 {
            if rank - 1 < 0 {
                Ok((mb, spec_word_end(s, i + 1)))
            } else {
                spec_place(s, i + 1, rank - 1, 0, mb)
            }
        } else if 48 <= c <= 57 {
            let nf = if file + (c - 48) > 8 {
                9int
            } else {
                file + (c - 48)
            };
            spec_place(s, i + 1, rank, nf, mb)
        } else {
            let p = fen_piece_of_char(c as char);
            if p == Piece::Empty {
                Err(FenError::NoSuchPiece(NoSuchPieceError { letter: c as char }))
            } else if !(0 <= rank < 8 && 0 <= file < 8) {
                Err(FenError::NoSuchPiece(NoSuchPieceError { letter: c as char }))
            } else {
                spec_place(s, i + 1, rank, file + 1, mb.update(rank * 8 + file, p))
            }
        }
    }
}

/// The side-to-move field: a single `w` or `b` letter of either case.
pub open spec fn spec_parse_side(s: Seq<u8>, i: int) -> Result<(PieceColor, int), FenError> {
    let j = spec_word_end(s, i);
    if i >= s.len() {
        Err(FenError::NotEnoughInfo)
    } else if j == i + 1 && (s[i] == 119 || s[i] == 87) {
        Ok((PieceColor::White, j))
    } else if j == i + 1 && (s[i] == 98 || s[i] == 66) {
        Ok((PieceColor::Black, j))
    } else {
        Err(FenError::NoSuchColor(s[i] as char))
    }
}

/// The castling field: `K`, `Q`, `k`, `q` each grant a right; a dash
/// ends the field; anything else is an error.
pub open spec fn spec_parse_castle(s: Seq<u8>, i: int, flags: u8) -> Result<(u8, int), FenError>
    decreases s.len() - i,
{
    if i < 0 || i >= s.len() || is_ws(s[i]) {
        Ok((flags, i))
    } else {
        let c = s[i];
        if c == 75 {
            spec_parse_castle(s, i + 1, flags | 0x1)
        } else if c == 81 {
            spec_parse_castle(s, i + 1, flags | 0x2)
        } else if c == 107 {
            spec_parse_castle(s, i + 1, flags | 0x4)
        } else if c == 113 {
            spec_parse_castle(s, i + 1, flags | 0x8)
        } else if c == 45 {
            Ok((flags, spec_word_end(s, i + 1)))
        } else {
            Err(FenError::NoSuchCastle(c as char))
        }
    }
}

/// The en-passant field: a dash, or an algebraic square on the third or
/// sixth rank; the board stores the pushed pawn's landing square, one
/// rank further in the push direction.
pub open spec fn spec_parse_ep(s: Seq<u8>, i: int) -> Result<(Option<u32>, int), FenError> {
    let j = spec_word_end(s, i);
    if i >= s.len() {
        Err(FenError::NotEnoughInfo)
    } else if j == i + 1 && s[i] == 45 {
        Ok((None, j))
    } else if j - i < 2 {
        Err(FenError::InvalidEnPressant(s[i] as char))
    } else if !(97 <= s[i] <= 104 && 49 <= s[i + 1] <= 56) {
        Err(FenError::InvalidEnPressant(s[i] as char))
    } else {
        let sq = (s[i] - 97) + 8 * (s[i + 1] - 49);
        if s[i + 1] == 51 {
            Ok((Some((sq + 8) as u32), j))
        } else if s[i + 1] == 54 {
            Ok((Some((sq - 8) as u32), j))
        } else {
            Err(FenError::EnPessentNotInRange(sq as u32))
        }
    }
}

/// The whole parse: placement, side, castling and en-passant fields in
/// order, blanks between them, anything after ignored.
pub open spec fn spec_parse_fen(s: Seq<u8>) -> Result<
    (Seq<Piece>, PieceColor, u8, Option<u32>),
    FenError,
> {
    let i0 = spec_skip_ws(s, 0);
    if i0 >= s.len() {
        Err(FenError::NotEnoughInfo)
    } else {
        match spec_place(s, i0, 7, 0, Seq::new(64, |j: int| Piece::Empty)) {
            Err(e) => Err(e),
            Ok((mb, i1)) => {
                match spec_parse_side(s, spec_skip_ws(s, i1)) {
                    Err(e) => Err(e),
                    Ok((stm, i2)) => {
                        let i3 = spec_skip_ws(s, i2);
                        if i3 >= s.len() {
                            Err(FenError::NotEnoughInfo)
                        } else {
                            match spec_parse_castle(s, i3, 0) {
                                Err(e) => Err(e),
                                Ok((flags, i4)) => {
                                    match spec_parse_ep(s, spec_skip_ws(s, i4)) {
                                        Err(e) => Err(e),
                                        Ok((ep, _i5)) => Ok((mb, stm, flags, ep)),
                                    }
                                },
                            }
                        }
                    },
                }
            },
        }
    }
}

fn skip_ws(s: &Vec<u8>, i: usize) -> (r: usize)
    requires
        i <= s.len(),
    ensures
        r == spec_skip_ws(s@, i as int),
        i <= r <= s.len(),
    decreases s.len() - i,
{
    if i >= s.len() {
        i
    } else {
        let b = s[i];
        if b == 32 || b == 9 || b == 10 || b == 13 {
            skip_ws(s, i + 1)
        } else {
            i
        }
    }
}

fn word_end(s: &Vec<u8>, i: usize) -> (r: usize)
    requires
        i <= s.len(),
    ensures
        r == spec_word_end(s@, i as int),
        i <= r <= s.len(),
    decreases s.len() - i,
{
    if i >= s.len() {
        i
    } else {
        let b = s[i];
        if b == 32 || b == 9 || b == 10 || b == 13 {
            i
        } else {
            word_end(s, i + 1)
        }
    }
}

fn place_exec(s: &Vec<u8>, i: usize, rank: i32, file: i32, mb: &mut Vec<Piece>) -> (r: Result<
    usize,
    FenError,
>)
    requires
        i <= s.len(),
        -1 <= rank <= 7,
        0 <= file <= 9,
        old(mb)@.len() == 64,
    ensures
        final(mb)@.len() == 64,
        r is Ok ==> spec_place(s@, i as int, rank as int, file as int, old(mb)@) == Ok::<
            _,
            FenError,
        >((final(mb)@, r.unwrap() as int)) && r.unwrap() <= s.len(),
        r is Err ==> spec_place(s@, i as int, rank as int, file as int, old(mb)@) == Err::<
            (Seq<Piece>, int),
            _,
        >(r.unwrap_err()),
    decreases s.len() - i,
{
    if i >= s.len() {
        return Ok(i);
    }
    let c = s[i];
    if c == 32 || c == 9 || c == 10 || c == 13 {
        return Ok(i);
    }
    if c == 47 {
        if rank - 1 < 0 {
            Ok(word_end(s, i + 1))
        } else {
            place_exec(s, i + 1, rank - 1, 0, mb)
        }
    } else if 48 <= c && c <= 57 {
        let nf = if file + ((c - 48) as i32) > 8 {
            9
        } else {
            file + ((c - 48) as i32)
        };
        place_exec(s, i + 1, rank, nf, mb)
    } else {
        let p = crate::piece::Piece::from_char(c as char);
        match p {
            Err(e) => Err(FenError::NoSuchPiece(NoSuchPieceError { letter: c as char })),
            Ok(p) => {
                if !(0 <= rank && rank < 8 && 0 <= file && file < 8) {
                    Err(FenError::NoSuchPiece(NoSuchPieceError { letter: c as char }))
                } else {
                    let sq = (rank * 8 + file) as usize;
                    mb[sq] = p;
                    place_exec(s, i + 1, rank, file + 1, mb)
                }
            },
        }
    }
}

fn castle_exec(s: &Vec<u8>, i: usize, flags: u8) -> (r: Result<(u8, usize), FenError>)
    requires
        i <= s.len(),
        flags < 16,
    ensures
        r is Ok ==> spec_parse_castle(s@, i as int, flags) == Ok::<_, FenError>(
            (r.unwrap().0, r.unwrap().1 as int),
        ) && r.unwrap().0 < 16 && r.unwrap().1 <= s.len(),
        r is Err ==> spec_parse_castle(s@, i as int, flags) == Err::<(u8, int), _>(r.unwrap_err()),
    decreases s.len() - i,
{
    if i >= s.len() {
        return Ok((flags, i));
    }
    let c = s[i];
    if c == 32 || c == 9 || c == 10 || c == 13 {
        return Ok((flags, i));
    }
    proof {
        lemma_castle_or(flags);
    }
    if c == 75 {
        castle_exec(s, i + 1, flags | 0x1)
    } else if c == 81 {
        castle_exec(s, i + 1, flags | 0x2)
    } else if c == 107 {
        castle_exec(s, i + 1, flags | 0x4)
    } else if c == 113 {
        castle_exec(s, i + 1, flags | 0x8)
    } else if c == 45 {
        Ok((flags, word_end(s, i + 1)))
    } else {
        Err(FenError::NoSuchCastle(c as char))
    }
}

proof fn lemma_castle_or(f: u8)
    requires
        f < 16,
    ensures
        (f | 0x1) < 16,
        (f | 0x2) < 16,
        (f | 0x4) < 16,
        (f | 0x8) < 16,
{
    assert(f < 16 ==> ((f | 0x1) < 16 && (f | 0x2) < 16 && (f | 0x4) < 16 && (f | 0x8) < 16))
        by (bit_vector);
}

/// Build the bitboards a mailbox describes.
pub fn build_bitboards(mb: &Vec<Piece>) -> (r: BitBoards)
    requires
        mb@.len() == 64,
    ensures
        r.wf_with(mb@),
{
    let mut bb = BitBoards::new_empty();
    let ghost empty_mb = Seq::new(64, |j: int| Piece::Empty);
    let mut sq: usize = 0;
    while sq < 64
        invariant
            sq <= 64,
            mb@.len() == 64,
            bb.wf_with(Seq::new(64, |j: int| if j < sq { mb@[j] } else { Piece::Empty })),
        decreases 64 - sq,
    {
        let ghost pre = Seq::new(64, |j: int| if j < sq { mb@[j] } else { Piece::Empty });
        let ghost post = Seq::new(64, |j: int| if j < sq + 1 { mb@[j] } else { Piece::Empty });
        let p = mb[sq];
        if p != Piece::Empty {
            let ghost bb_old = bb;
            bb.set_piece(sq, p);
            proof {
                assert(post =~= pre.update(sq as int, p));
                crate::board::lemma_put_wf(bb_old, bb, pre, post, sq as int, p);
            }
        } else {
            proof {
                assert(post =~= pre);
            }
        }
        sq = sq + 1;
    }
    proof {
        assert(Seq::new(64, |j: int| if j < 64 { mb@[j] } else { Piece::Empty }) =~= mb@);
    }
    bb
}

/// Recompute the Zobrist hash of a position from scratch.
pub fn compute_hash(
    keys: &ZobristKeys,
    pieces: &Vec<Piece>,
    castle_flags: u8,
    last_double: Option<u32>,
    current_color: PieceColor,
) -> (r: u64)
    requires
        keys.wf(),
        pieces@.len() == 64,
        castle_flags < 16,
        match last_double {
            Some(s) => s < 64,
            None => true,
        },
    ensures
        r == keys.spec_zobrist_of(pieces@, castle_flags, last_double, current_color),
{
    let mut h: u64 = 0;
    let mut sq: usize = 0;
    while sq < 64
        invariant
            sq <= 64,
            keys.wf(),
            pieces@.len() == 64,
            h == keys.spec_piece_hash_upto(pieces@, sq as int),
        decreases 64 - sq,
    {
        let p = pieces[sq];
        if p != Piece::Empty {
            h = h ^ keys.piece_key(p, sq);
        } else {
            proof {
                lemma_xor_cancel(h, 0, 0);
            }
        }
        sq = sq + 1;
    }
    h = h ^ keys.castle_key(castle_flags);
    match last_double {
        Some(s) => {
            h = h ^ keys.double_push_key(s as usize);
        },
        None => {
            proof {
                lemma_xor_cancel(h, 0, 0);
            }
            h = h ^ 0;
        },
    }
    if current_color == PieceColor::Black {
        h = h ^ keys.side();
    } else {
        proof {
            lemma_xor_cancel(h, 0, 0);
        }
        h = h ^ 0;
    }
    h
}

/// Recompute the evaluation of a position from scratch: material plus
/// positional worth, positive for `current_color`.
pub fn compute_eval(pieces: &Vec<Piece>, current_color: PieceColor) -> (r: i32)
    requires
        pieces@.len() == 64,
    ensures
        r == spec_eval_of(pieces@, current_color),
{
    let mut e: i32 = 0;
    let mut sq: usize = 0;
    while sq < 64
        invariant
            sq <= 64,
            pieces@.len() == 64,
            e == spec_eval_upto(pieces@, sq as int, current_color),
        decreases 64 - sq,
    {
        proof {
            lemma_eval_upto_bounds(pieces@, sq as int, current_color);
        }
        let p = pieces[sq];
        if p != Piece::Empty {
            let worth = piece_worth(p, sq);
            if p.get_color() == current_color {
                e = e + worth;
            } else {
                e = e - worth;
            }
        }
        sq = sq + 1;
    }
    e
}

impl Board {
    /// Parse a FEN string. On success the board holds exactly the
    /// position the string describes, well formed, with its hash and
    /// evaluation equal to the from-scratch recomputations; on failure
    /// the error is exactly what the grammar specification assigns.
    pub fn from_fen(fen: &str, keys: &ZobristKeys) -> (r: Result<Board, FenError>)
        requires
            keys.wf(),
        ensures
            r is Ok <==> spec_parse_fen(fen.spec_bytes()) is Ok,
            r is Ok ==> ({
                let (mb, stm, flags, ep) = spec_parse_fen(fen.spec_bytes()).unwrap();
                let b = r.unwrap();
                &&& b.pieces@ == mb
                &&& b.current_color == stm
                &&& b.castle_flags == flags
                &&& b.last_double == ep
                &&& b.wf()
                &&& b.hash_ok(*keys)
                &&& b.eval_ok()
            }),
            r is Err ==> spec_parse_fen(fen.spec_bytes()) == Err::<(Seq<Piece>, PieceColor, u8, Option<u32>), FenError>(r.unwrap_err()),
    {
        let bytes = fen.as_bytes_vec();
        let i0 = skip_ws(&bytes, 0);
        if i0 >= bytes.len() {
            return Err(FenError::NotEnoughInfo);
        }

        let mut mb: Vec<Piece> = Vec::new();
        let mut k: usize = 0;
        while k < 64
            invariant
                mb@.len() == k,
                k <= 64,
                forall|j: int| 0 <= j < k ==> mb@[j] == Piece::Empty,
            decreases 64 - k,
        {
            mb.push(Piece::Empty);
            k = k + 1;
        }
        proof {
            assert(mb@ =~= Seq::new(64, |j: int| Piece::Empty));
        }

        let i1 = match place_exec(&bytes, i0, 7, 0, &mut mb) {
            Ok(i1) => i1,
            Err(e) => {
                return Err(e);
            },
        };

        let i2 = skip_ws(&bytes, i1);
        let (stm, i3) = {
            let j = word_end(&bytes, i2);
            if i2 >= bytes.len() {
                return Err(FenError::NotEnoughInfo);
            }
            let b0 = bytes[i2];
            if j == i2 + 1 && (b0 == 119 || b0 == 87) {
                (PieceColor::White, j)
            } else if j == i2 + 1 && (b0 == 98 || b0 == 66) {
                (PieceColor::Black, j)
            } else {
                return Err(FenError::NoSuchColor(b0 as char));
            }
        };

        let i4 = skip_ws(&bytes, i3);
        if i4 >= bytes.len() {
            return Err(FenError::NotEnoughInfo);
        }
        let (flags, i5) = match castle_exec(&bytes, i4, 0) {
            Ok(p) => p,
            Err(e) => {
                return Err(e);
            },
        };

        let i6 = skip_ws(&bytes, i5);
        let ep: Option<u32> = {
            let j = word_end(&bytes, i6);
            if i6 >= bytes.len() {
                return Err(FenError::NotEnoughInfo);
            }
            let b0 = bytes[i6];
            if j == i6 + 1 && b0 == 45 {
                None
            } else if j - i6 < 2 {
                return Err(FenError::InvalidEnPressant(b0 as char));
            } else {
                let b1 = bytes[i6 + 1];
                if !(97 <= b0 && b0 <= 104 && 49 <= b1 && b1 <= 56) {
                    return Err(FenError::InvalidEnPressant(b0 as char));
                }
                let sq = ((b0 - 97) + 8 * (b1 - 49)) as u32;
                if b1 == 51 {
                    Some(sq + 8)
                } else if b1 == 54 {
                    Some(sq - 8)
                } else {
                    return Err(FenError::EnPessentNotInRange(sq));
                }
            }
        };

        let bit_boards = build_bitboards(&mb);
        let hash = compute_hash(keys, &mb, flags, ep, stm);
        let eval = compute_eval(&mb, stm);

        Ok(
            Board {
                bit_boards,
                pieces: mb,
                current_color: stm,
                castle_flags: flags,
                last_double: ep,
                hash,
                eval,
            },
        )
    }
}

} // verus!
