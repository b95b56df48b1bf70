//! Piece, piece-type and colour primitives.
//!
//! A colored piece is encoded as `color + 2 * type`, so `WhitePawn` is 0,
//! `BlackPawn` is 1, and so on up to `BlackKing` at 11, with `Empty` at 12.

use vstd::prelude::*;

verus! {

#[derive(Debug, Clone, Copy, PartialEq, Eq, Structural)]
pub enum PieceColor {
    White,
    Black,
}

impl PieceColor {
    /// Numeric encoding: White is 0, Black is 1.
    pub open spec fn idx(self) -> int {
        match self {
            PieceColor::White => 0,
            PieceColor::Black => 1,
        }
    }

    pub open spec fn spec_opposite(self) -> PieceColor {
        match self {
            PieceColor::White => PieceColor::Black,
            PieceColor::Black => PieceColor::White,
        }
    }

    /// The other colour.
    pub fn opposite(self) -> (r: PieceColor)
        ensures
            r == self.spec_opposite(),
    {
        match self {
            PieceColor::White => PieceColor::Black,
            PieceColor::Black => PieceColor::White,
        }
    }

    pub fn index(self) -> (r: usize)
        ensures
            r == self.idx(),
    {
        match self {
            PieceColor::White => 0,
            PieceColor::Black => 1,
        }
    }
}

#[derive(Debug, Clone, Copy, PartialEq, Eq, Structural)]
pub enum PieceType {
    Pawn,
    Knight,
    Bishop,
    Rook,
    Queen,
    King,
    Empty,
}

impl PieceType {
    /// Numeric encoding: Pawn 0 through King 5, Empty 6.
    pub open spec fn idx(self) -> int {
        match self {
            PieceType::Pawn => 0,
            PieceType::Knight => 1,
            PieceType::Bishop => 2,
            PieceType::Rook => 3,
            PieceType::Queen => 4,
            PieceType::King => 5,
            PieceType::Empty => 6,
        }
    }

    pub open spec fn spec_from_index(v: int) -> PieceType {
        if v == 0 {
            PieceType::Pawn
        } else if v == 1 {
            PieceType::Knight
        } else if v == 2 {
            PieceType::Bishop
        } else if v == 3 {
            PieceType::Rook
        } else if v == 4 {
            PieceType::Queen
        } else if v == 5 {
            PieceType::King
        } else {
            PieceType::Empty
        }
    }

    pub fn index(self) -> (r: usize)
        ensures
            r == self.idx(),
    {
        match self {
            PieceType::Pawn => 0,
            PieceType::Knight => 1,
            PieceType::Bishop => 2,
            PieceType::Rook => 3,
            PieceType::Queen => 4,
            PieceType::King => 5,
            PieceType::Empty => 6,
        }
    }

    /// Decode a numeric piece type; values above 6 give `Empty`.
    pub fn from_index(v: u8) -> (r: PieceType)
        ensures
            r == PieceType::spec_from_index(v as int),
            r.idx() == if v <= 6 { v as int } else { 6 },
    {
        if v == 0 {
            PieceType::Pawn
        } else if v == 1 {
            PieceType::Knight
        } else if v == 2 {
            PieceType::Bishop
        } else if v == 3 {
            PieceType::Rook
        } else if v == 4 {
            PieceType::Queen
        } else if v == 5 {
            PieceType::King
        } else {
            PieceType::Empty
        }
    }
}

#[derive(Debug, Clone, Copy, PartialEq, Eq, Structural)]
pub enum Piece {
    WhitePawn,
    BlackPawn,
    WhiteKnight,
    BlackKnight,
    WhiteBishop,
    BlackBishop,
    WhiteRook,
    BlackRook,
    WhiteQueen,
    BlackQueen,
    WhiteKing,
    BlackKing,
    Empty,
}

impl Piece {
    /// Numeric encoding: `color + 2 * type`, with `Empty` at 12.
    pub open spec fn idx(self) -> int {
        match self {
            Piece::WhitePawn => 0,
            Piece::BlackPawn => 1,
            Piece::WhiteKnight => 2,
            Piece::BlackKnight => 3,
            Piece::WhiteBishop => 4,
            Piece::BlackBishop => 5,
            Piece::WhiteRook => 6,
            Piece::BlackRook => 7,
            Piece::WhiteQueen => 8,
            Piece::BlackQueen => 9,
            Piece::WhiteKing => 10,
            Piece::BlackKing => 11,
            Piece::Empty => 12,
        }
    }

    pub open spec fn spec_from_index(v: int) -> Piece {
        if v == 0 {
            Piece::WhitePawn
        } else if v == 1 {
            Piece::BlackPawn
        } else if v == 2 {
            Piece::WhiteKnight
        } else if v == 3 {
            Piece::BlackKnight
        } else if v == 4 {
            Piece::WhiteBishop
        } else if v == 5 {
            Piece::BlackBishop
        } else if v == 6 {
            Piece::WhiteRook
        } else if v == 7 {
            Piece::BlackRook
        } else if v == 8 {
            Piece::WhiteQueen
        } else if v == 9 {
            Piece::BlackQueen
        } else if v == 10 {
            Piece::WhiteKing
        } else if v == 11 {
            Piece::BlackKing
        } else {
            Piece::Empty
        }
    }

    pub open spec fn spec_color(self) -> PieceColor {
        if self.idx() % 2 == 0 {
            PieceColor::White
        } else {
            PieceColor::Black
        }
    }

    pub open spec fn spec_type(self) -> PieceType {
        PieceType::spec_from_index(self.idx() / 2)
    }

    pub open spec fn spec_new(piece_type: PieceType, piece_color: PieceColor) -> Piece {
        Piece::spec_from_index(piece_color.idx() + piece_type.idx() * 2)
    }

    /// Combine a type and a colour into a colored piece;
    /// an `Empty` type gives the `Empty` piece.
    pub fn new(piece_type: PieceType, piece_color: PieceColor) -> (r: Piece)
        ensures
            r == Piece::spec_new(piece_type, piece_color),
            piece_type != PieceType::Empty ==> r.spec_type() == piece_type && r.spec_color()
                == piece_color,
            r.idx() == if piece_type == PieceType::Empty {
                12int
            } else {
                piece_color.idx() + piece_type.idx() * 2
            },
    {
        let v = piece_color.index() + piece_type.index() * 2;
        Piece::from_index(v as u8)
    }

    /// Decode a numeric piece; values above 12 give `Empty`.
    pub fn from_index(v: u8) -> (r: Piece)
        ensures
            r == Piece::spec_from_index(v as int),
            r.idx() == if v <= 12 { v as int } else { 12 },
    {
        if v == 0 {
            Piece::WhitePawn
        } else if v == 1 {
            Piece::BlackPawn
        } else if v == 2 {
            Piece::WhiteKnight
        } else if v == 3 {
            Piece::BlackKnight
        } else if v == 4 {
            Piece::WhiteBishop
        } else if v == 5 {
            Piece::BlackBishop
        } else if v == 6 {
            Piece::WhiteRook
        } else if v == 7 {
            Piece::BlackRook
        } else if v == 8 {
            Piece::WhiteQueen
        } else if v == 9 {
            Piece::BlackQueen
        } else if v == 10 {
            Piece::WhiteKing
        } else if v == 11 {
            Piece::BlackKing
        } else {
            Piece::Empty
        }
    }

    pub fn index(self) -> (r: usize)
        ensures
            r == self.idx(),
    {
        match self {
            Piece::WhitePawn => 0,
            Piece::BlackPawn => 1,
            Piece::WhiteKnight => 2,
            Piece::BlackKnight => 3,
            Piece::WhiteBishop => 4,
            Piece::BlackBishop => 5,
            Piece::WhiteRook => 6,
            Piece::BlackRook => 7,
            Piece::WhiteQueen => 8,
            Piece::BlackQueen => 9,
            Piece::WhiteKing => 10,
            Piece::BlackKing => 11,
            Piece::Empty => 12,
        }
    }

    /// The colour of a colored piece (`Empty` reads as White,
    /// matching the even numeric encoding).
    pub fn get_color(self) -> (r: PieceColor)
        ensures
            r == self.spec_color(),
    {
        if self.index() % 2 == 0 {
            PieceColor::White
        } else {
            PieceColor::Black
        }
    }

    /// The type of a colored piece; `Empty` gives the `Empty` type.
    pub fn get_type(self) -> (r: PieceType)
        ensures
            r == self.spec_type(),
            self != Piece::Empty ==> r != PieceType::Empty,
            self == Piece::Empty ==> r == PieceType::Empty,
    {
        let v = self.index() / 2;
        PieceType::from_index(v as u8)
    }

    /// The same piece type with the opposite colour; `Empty` stays `Empty`.
    pub fn flip_color(self) -> (r: Piece)
        ensures
            self != Piece::Empty ==> r == Piece::spec_new(
                self.spec_type(),
                self.spec_color().spec_opposite(),
            ),
            self == Piece::Empty ==> r == Piece::Empty,
    {
        match self {
            Piece::WhitePawn => Piece::BlackPawn,
            Piece::BlackPawn => Piece::WhitePawn,
            Piece::WhiteKnight => Piece::BlackKnight,
            Piece::BlackKnight => Piece::WhiteKnight,
            Piece::WhiteBishop => Piece::BlackBishop,
            Piece::BlackBishop => Piece::WhiteBishop,
            Piece::WhiteRook => Piece::BlackRook,
            Piece::BlackRook => Piece::WhiteRook,
            Piece::WhiteQueen => Piece::BlackQueen,
            Piece::BlackQueen => Piece::WhiteQueen,
            Piece::WhiteKing => Piece::BlackKing,
            Piece::BlackKing => Piece::WhiteKing,
            Piece::Empty => Piece::Empty,
        }
    }

    /// Parse a FEN piece letter: uppercase White, lowercase Black.
    pub fn from_char(c: char) -> (r: Result<Piece, NoSuchPieceError>)
        ensures
            r.is_ok() <==> fen_piece_of_char(c) != Piece::Empty,
            r.is_ok() ==> r.unwrap() == fen_piece_of_char(c),
    {
        match c {
            'P' => Ok(Piece::WhitePawn),
            'p' => Ok(Piece::BlackPawn),
            'N' => Ok(Piece::WhiteKnight),
            'n' => Ok(Piece::BlackKnight),
            'B' => Ok(Piece::WhiteBishop),
            'b' => Ok(Piece::BlackBishop),
            'R' => Ok(Piece::WhiteRook),
            'r' => Ok(Piece::BlackRook),
            'Q' => Ok(Piece::WhiteQueen),
            'q' => Ok(Piece::BlackQueen),
            'K' => Ok(Piece::WhiteKing),
            'k' => Ok(Piece::BlackKing),
            _ => Err(NoSuchPieceError { letter: c }),
        }
    }

    /// The FEN letter for a piece; `Empty` prints as a space.
    pub fn to_char(self) -> (r: char)
        ensures
            self != Piece::Empty ==> fen_piece_of_char(r) == self,
    {
        match self {
            Piece::WhitePawn => 'P',
            Piece::BlackPawn => 'p',
            Piece::WhiteKnight => 'N',
            Piece::BlackKnight => 'n',
            Piece::WhiteBishop => 'B',
            Piece::BlackBishop => 'b',
            Piece::WhiteRook => 'R',
            Piece::BlackRook => 'r',
            Piece::WhiteQueen => 'Q',
            Piece::BlackQueen => 'q',
            Piece::WhiteKing => 'K',
            Piece::BlackKing => 'k',
            Piece::Empty => ' ',
        }
    }
}

/// The piece a FEN letter stands for, or `Empty` for any other character.
pub open spec fn fen_piece_of_char(c: char) -> Piece {
    if c == 'P' {
        Piece::WhitePawn
    } else if c == 'p' {
        Piece::BlackPawn
    } else if c == 'N' {
        Piece::WhiteKnight
    } else if c == 'n' {
        Piece::BlackKnight
    } else if c == 'B' {
        Piece::WhiteBishop
    } else if c == 'b' {
        Piece::BlackBishop
    } else if c == 'R' {
        Piece::WhiteRook
    } else if c == 'r' {
        Piece::BlackRook
    } else if c == 'Q' {
        Piece::WhiteQueen
    } else if c == 'q' {
        Piece::BlackQueen
    } else if c == 'K' {
        Piece::WhiteKing
    } else if c == 'k' {
        Piece::BlackKing
    } else {
        Piece::Empty
    }
}

/// A FEN letter that names no piece.
#[derive(Debug, Clone, Copy, PartialEq, Eq, Structural)]
pub struct NoSuchPieceError {
    pub letter: char,
}

/// Walks the twelve colored pieces in numeric order.
#[derive(Debug, Clone, Copy)]
pub struct PieceIter {
    pub next_index: u8,
}

impl PieceIter {
    pub fn new() -> (r: PieceIter)
        ensures
            r.next_index == 0,
    {
        PieceIter { next_index: 0 }
    }

    /// The next colored piece, or `None` once all twelve are out.
    pub fn next(&mut self) -> (r: Option<Piece>)
        ensures
            old(self).next_index < 12 ==> r == Some(Piece::spec_from_index(
                old(self).next_index as int,
            )) && final(self).next_index == old(self).next_index + 1,
            old(self).next_index >= 12 ==> r is None && *final(self) == *old(self),
    {
        if self.next_index < 12 {
            let p = Piece::from_index(self.next_index);
            self.next_index = self.next_index + 1;
            Some(p)
        } else {
            None
        }
    }
}

} // verus!
