//! The wire move encoding: long algebraic, two squares and an optional
//! promotion letter. Parsing tells double pushes, castles, en-passant
//! captures and promotions apart by the board context; printing walks
//! the other way.

use vstd::prelude::*;

use vstd::string::StringSliceAdditionalSpecFns;
use vstd::string::StrSliceExecFns;
use vstd::string::StringExecFns;


use crate::board::Board;
use crate::moves::Move;
use crate::moves::MoveType;
use crate::piece::Piece;
use crate::piece::PieceColor;
use crate::piece::PieceType;

verus! {

/// What can be wrong with a wire move.
#[derive(Debug, Clone, Copy, PartialEq, Eq, Structural)]
pub enum ParseMoveError {
    StringTooSmall,
    InvalidPromotionPiece,
}

/// The square two algebraic bytes name.
pub open spec fn spec_pm_sq(file: u8, rank: u8) -> int {
    (file - 97) + 8 * (rank - 49)
}

/// The four square bytes are well formed: files a..h, ranks 1..8.
pub open spec fn spec_pm_valid(s: Seq<u8>) -> bool {
    &&& s.len() >= 4
    &&& 97 <= s[0] <= 104
    &&& 49 <= s[1] <= 56
    &&& 97 <= s[2] <= 104
    &&& 49 <= s[3] <= 56
}

/// The promotion letter, if the move carries one: `q`, `r`, `b` or `n`.
pub open spec fn spec_pm_promo(s: Seq<u8>) -> Result<PieceType, ParseMoveError> {
    if s.len() < 5 {
        Ok(PieceType::Empty)
    } else if s[4] == 113 {
        Ok(PieceType::Queen)
    } else if s[4] == 114 {
        Ok(PieceType::Rook)
    } else if s[4] == 98 {
        Ok(PieceType::Bishop)
    } else if s[4] == 110 {
        Ok(PieceType::Knight)
    } else {
        Err(ParseMoveError::InvalidPromotionPiece)
    }
}

/// The move the wire bytes stand for on board `b`: the board decides
/// whether the squares mean a double push, a castle, an en-passant
/// capture, a promotion, or a plain move with whatever stands on the
/// destination as its capture. Fields are (origin, destination, type,
/// piece, captured type).
pub open spec fn spec_parse_move(b: Board, s: Seq<u8>) -> Result<
    (int, int, MoveType, Piece, PieceType),
    ParseMoveError,
> {
    if !spec_pm_valid(s) {
        Err(ParseMoveError::StringTooSmall)
    } else {
        let from = spec_pm_sq(s[0], s[1]);
        let to = spec_pm_sq(s[2], s[3]);
        let mb = b.pieces@;
        let stm = b.current_color;
        if mb[from].spec_type() == PieceType::Pawn && mb[to] == Piece::Empty && s[0] == s[2] && ((
        stm == PieceColor::White && s[1] == 50 && s[3] == 52) || (stm == PieceColor::Black && s[1]
            == 55 && s[3] == 53)) {
            Ok((from, to, MoveType::DoublePush, Piece::spec_new(PieceType::Pawn, stm), PieceType::Empty))
        } else if from == 4 && to == 6 && mb[from].spec_type() == PieceType::King && stm
            == PieceColor::White {
            Ok((from, to, MoveType::KingCastle, Piece::spec_new(PieceType::King, stm), PieceType::Empty))
        } else if from == 4 && to == 2 && mb[from].spec_type() == PieceType::King && stm
            == PieceColor::White {
            Ok((from, to, MoveType::QueenCastle, Piece::spec_new(PieceType::King, stm), PieceType::Empty))
        } else if from == 60 && to == 62 && mb[from].spec_type() == PieceType::King && stm
            == PieceColor::Black {
            Ok((from, to, MoveType::KingCastle, Piece::spec_new(PieceType::King, stm), PieceType::Empty))
        } else if from == 60 && to == 58 && mb[from].spec_type() == PieceType::King && stm
            == PieceColor::Black {
            Ok((from, to, MoveType::QueenCastle, Piece::spec_new(PieceType::King, stm), PieceType::Empty))
        } else if mb[from].spec_type() == PieceType::Pawn && mb[to] == Piece::Empty && (s[0] != s[2])
            && ((stm == PieceColor::Black && s[1] == 52 && s[3] == 51 && mb[to + 8].spec_type()
            == PieceType::Pawn) || (stm == PieceColor::White && s[1] == 53 && s[3] == 54 && mb[to
            - 8].spec_type() == PieceType::Pawn)) {
            Ok((from, to, MoveType::EnPassantCapture, Piece::spec_new(PieceType::Pawn, stm), PieceType::Pawn))
        } else {
            match spec_pm_promo(s) {
                Err(e) => Err(e),
                Ok(promo) => {
                    if promo != PieceType::Empty {
                        Ok((from, to, MoveType::Promote, Piece::spec_new(promo, stm), mb[to].spec_type()))
                    } else {
                        Ok((from, to, MoveType::QuietMove, mb[from], mb[to].spec_type()))
                    }
                },
            }
        }
    }
}

impl Board {
    /// Parse a wire move against this board. On success the returned
    /// move carries exactly the fields the grammar specification
    /// assigns; the board is not consulted for legality.
    pub fn parse_move(&self, s: &str) -> (r: Result<Move, ParseMoveError>)
        requires
            self.wf(),
        ensures
            r is Ok <==> spec_parse_move(*self, s.spec_bytes()) is Ok,
            r is Ok ==> ({
                let (from, to, mt, piece, cap) = spec_parse_move(*self, s.spec_bytes()).unwrap();
                let m = r.unwrap();
                &&& m.spec_from() == from
                &&& m.spec_to() == to
                &&& m.spec_move_type() == mt
                &&& m.spec_piece() == piece
                &&& m.spec_captured() == cap
            }),
            r is Err ==> spec_parse_move(*self, s.spec_bytes()) == Err::<
                (int, int, MoveType, Piece, PieceType),
                ParseMoveError,
            >(r.unwrap_err()),
    {
        let bytes = s.as_bytes_vec();
        if bytes.len() < 4 {
            return Err(ParseMoveError::StringTooSmall);
        }
        let b0 = bytes[0];
        let b1 = bytes[1];
        let b2 = bytes[2];
        let b3 = bytes[3];
        if !(97 <= b0 && b0 <= 104 && 49 <= b1 && b1 <= 56 && 97 <= b2 && b2 <= 104 && 49 <= b3
            && b3 <= 56) {
            return Err(ParseMoveError::StringTooSmall);
        }
        let from = ((b0 - 97) + 8 * (b1 - 49)) as usize;
        let to = ((b2 - 97) + 8 * (b3 - 49)) as usize;
        let stm = self.current_color;

        let from_piece = self.piece_at(from);
        let to_piece = self.piece_at(to);

        if from_piece.get_type() == PieceType::Pawn && to_piece == Piece::Empty && b0 == b2 && ((stm
            == PieceColor::White && b1 == 50 && b3 == 52) || (stm == PieceColor::Black && b1 == 55
            && b3 == 53)) {
            return Ok(
                Move::new(
                    from as u32,
                    to as u32,
                    MoveType::DoublePush,
                    Piece::new(PieceType::Pawn, stm),
                    PieceType::Empty,
                ),
            );
        }
        if from == 4 && to == 6 && from_piece.get_type() == PieceType::King && stm
            == PieceColor::White {
            return Ok(
                Move::new(
                    from as u32,
                    to as u32,
                    MoveType::KingCastle,
                    Piece::new(PieceType::King, stm),
                    PieceType::Empty,
                ),
            );
        }
        if from == 4 && to == 2 && from_piece.get_type() == PieceType::King && stm
            == PieceColor::White {
            return Ok(
                Move::new(
                    from as u32,
                    to as u32,
                    MoveType::QueenCastle,
                    Piece::new(PieceType::King, stm),
                    PieceType::Empty,
                ),
            );
        }
        if from == 60 && to == 62 && from_piece.get_type() == PieceType::King && stm
            == PieceColor::Black {
            return Ok(
                Move::new(
                    from as u32,
                    to as u32,
                    MoveType::KingCastle,
                    Piece::new(PieceType::King, stm),
                    PieceType::Empty,
                ),
            );
        }
        if from == 60 && to == 58 && from_piece.get_type() == PieceType::King && stm
            == PieceColor::Black {
            return Ok(
                Move::new(
                    from as u32,
                    to as u32,
                    MoveType::QueenCastle,
                    Piece::new(PieceType::King, stm),
                    PieceType::Empty,
                ),
            );
        }
        if from_piece.get_type() == PieceType::Pawn && to_piece == Piece::Empty && b0 != b2 {
            if stm == PieceColor::Black && b1 == 52 && b3 == 51 && self.piece_at(to + 8).get_type()
                == PieceType::Pawn {
                return Ok(
                    Move::new(
                        from as u32,
                        to as u32,
                        MoveType::EnPassantCapture,
                        Piece::new(PieceType::Pawn, stm),
                        PieceType::Pawn,
                    ),
                );
            }
            if stm == PieceColor::White && b1 == 53 && b3 == 54 && self.piece_at(to - 8).get_type()
                == PieceType::Pawn {
                return Ok(
                    Move::new(
                        from as u32,
                        to as u32,
                        MoveType::EnPassantCapture,
                        Piece::new(PieceType::Pawn, stm),
                        PieceType::Pawn,
                    ),
                );
            }
        }

        let captured = to_piece.get_type();
        let promo: PieceType = if bytes.len() < 5 {
            PieceType::Empty
        } else {
            let b4 = bytes[4];
            if b4 == 113 {
                PieceType::Queen
            } else if b4 == 114 {
                PieceType::Rook
            } else if b4 == 98 {
                PieceType::Bishop
            } else if b4 == 110 {
                PieceType::Knight
            } else {
                return Err(ParseMoveError::InvalidPromotionPiece);
            }
        };

        if promo != PieceType::Empty {
            Ok(
                Move::new(
                    from as u32,
                    to as u32,
                    MoveType::Promote,
                    Piece::new(promo, stm),
                    captured,
                ),
            )
        } else {
            Ok(Move::new(from as u32, to as u32, MoveType::QuietMove, from_piece, captured))
        }
    }
}

/// The letter of a file number.
pub open spec fn spec_file_char(f: int) -> char {
    if f == 0 {
        'a'
    } else if f == 1 {
        'b'
    } else if f == 2 {
        'c'
    } else if f == 3 {
        'd'
    } else if f == 4 {
        'e'
    } else if f == 5 {
        'f'
    } else if f == 6 {
        'g'
    } else {
        'h'
    }
}

/// The digit of a rank number.
pub open spec fn spec_rank_char(r: int) -> char {
    if r == 0 {
        '1'
    } else if r == 1 {
        '2'
    } else if r == 2 {
        '3'
    } else if r == 3 {
        '4'
    } else if r == 4 {
        '5'
    } else if r == 5 {
        '6'
    } else if r == 6 {
        '7'
    } else {
        '8'
    }
}

/// The promotion letter of a promoted piece type; queen for anything
/// unexpected.
pub open spec fn spec_promo_char(t: PieceType) -> char {
    if t == PieceType::Rook {
        'r'
    } else if t == PieceType::Bishop {
        'b'
    } else if t == PieceType::Knight {
        'n'
    } else {
        'q'
    }
}

/// The wire text of a move: origin and destination squares, and the
/// promotion letter when the move promotes.
pub open spec fn spec_uci_move_chars(m: Move) -> Seq<char> {
    let base = seq![
        spec_file_char(m.spec_from() as int % 8),
        spec_rank_char(m.spec_from() as int / 8),
        spec_file_char(m.spec_to() as int % 8),
        spec_rank_char(m.spec_to() as int / 8),
    ];
    if m.spec_move_type() == MoveType::Promote {
        base.push(spec_promo_char(m.spec_piece().spec_type()))
    } else {
        base
    }
}

fn file_str(f: usize) -> (r: &'static str)
    requires
        f < 8,
    ensures
        r@ =~= seq![spec_file_char(f as int)],
{
    let r: &'static str = if f == 0 {
        "a"
    } else if f == 1 {
        "b"
    } else if f == 2 {
        "c"
    } else if f == 3 {
        "d"
    } else if f == 4 {
        "e"
    } else if f == 5 {
        "f"
    } else if f == 6 {
        "g"
    } else {
        "h"
    };
    proof {
        reveal_strlit("a");
        reveal_strlit("b");
        reveal_strlit("c");
        reveal_strlit("d");
        reveal_strlit("e");
        reveal_strlit("f");
        reveal_strlit("g");
        reveal_strlit("h");
    }
    r
}

fn rank_str(k: usize) -> (r: &'static str)
    requires
        k < 8,
    ensures
        r@ =~= seq![spec_rank_char(k as int)],
{
    let r: &'static str = if k == 0 {
        "1"
    } else if k == 1 {
        "2"
    } else if k == 2 {
        "3"
    } else if k == 3 {
        "4"
    } else if k == 4 {
        "5"
    } else if k == 5 {
        "6"
    } else if k == 6 {
        "7"
    } else {
        "8"
    };
    proof {
        reveal_strlit("1");
        reveal_strlit("2");
        reveal_strlit("3");
        reveal_strlit("4");
        reveal_strlit("5");
        reveal_strlit("6");
        reveal_strlit("7");
        reveal_strlit("8");
    }
    r
}

/// Print a move in wire form: two squares, plus the promotion letter
/// for a promotion.
pub fn to_uci_move(m: Move) -> (r: String)
    ensures
        r@ == spec_uci_move_chars(m),
{
    let from = m.from() as usize;
    let to = m.to() as usize;
    let mut out = String::new();
    out.append(file_str(from % 8));
    out.append(rank_str(from / 8));
    out.append(file_str(to % 8));
    out.append(rank_str(to / 8));
    if m.move_type() == MoveType::Promote {
        let t = m.piece().get_type();
        let p: &'static str = if t == PieceType::Rook {
            "r"
        } else if t == PieceType::Bishop {
            "b"
        } else if t == PieceType::Knight {
            "n"
        } else {
            "q"
        };
        proof {
            reveal_strlit("r");
            reveal_strlit("b");
            reveal_strlit("n");
            reveal_strlit("q");
        }
        out.append(p);
    }
    proof {
        assert(out@ =~= spec_uci_move_chars(m));
    }
    out
}

} // verus!
