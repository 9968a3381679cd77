//! Chess colors and piece types.
use vstd::prelude::*;
use crate::games::CharType;

verus! {

/// Number of chess piece types (without the empty square).
pub const NUM_CHESS_PIECES: usize = 6;

/// Number of players.
pub const NUM_COLORS: usize = 2;

/// White is always the first player, Black is always the second.
#[derive(Copy, Clone, Eq, PartialEq, Structural, Debug, Hash)]
pub enum ChessColor {
    White,
    Black,
}

impl ChessColor {
    /// 0 for White, 1 for Black.
    pub open spec fn spec_idx(self) -> int {
        match self {
            ChessColor::White => 0,
            ChessColor::Black => 1,
        }
    }

    pub fn idx(self) -> (r: usize)
        ensures
            r == self.spec_idx(),
            r < 2,
    {
        match self {
            ChessColor::White => 0,
            ChessColor::Black => 1,
        }
    }

    pub open spec fn spec_other(self) -> ChessColor {
        match self {
            ChessColor::White => ChessColor::Black,
            ChessColor::Black => ChessColor::White,
        }
    }

    /// The opponent's color.
    pub fn other(self) -> (r: ChessColor)
        ensures
            r == self.spec_other(),
            r != self,
    {
        match self {
            ChessColor::White => ChessColor::Black,
            ChessColor::Black => ChessColor::White,
        }
    }

    pub open spec fn spec_from_idx(i: int) -> ChessColor {
        if i == 0 {
            ChessColor::White
        } else {
            ChessColor::Black
        }
    }

    pub fn from_idx(i: usize) -> (r: ChessColor)
        requires
            i < 2,
        ensures
            r.spec_idx() == i,
            r == Self::spec_from_idx(i as int),
    {
        if i == 0 {
            ChessColor::White
        } else {
            ChessColor::Black
        }
    }

    /// The character used in FENs: `w` or `b`.
    pub fn ascii_color_char(self) -> (c: char)
        ensures
            c == (if self == ChessColor::White {
                'w'
            } else {
                'b'
            }),
    {
        match self {
            ChessColor::White => 'w',
            ChessColor::Black => 'b',
        }
    }

    pub fn is_white(self) -> (r: bool)
        ensures
            r == (self == ChessColor::White),
    {
        match self {
            ChessColor::White => true,
            ChessColor::Black => false,
        }
    }
}

/// The type of a chess piece, or `Empty` for an empty square.
#[derive(Copy, Clone, Eq, PartialEq, Structural, Debug, Hash)]
pub enum ChessPieceType {
    Pawn,
    Knight,
    Bishop,
    Rook,
    Queen,
    King,
    Empty,
}

impl ChessPieceType {
    /// Index of the piece type: 0 for pawns up to 5 for kings and 6 for `Empty`.
    pub open spec fn spec_idx(self) -> int {
        match self {
            ChessPieceType::Pawn => 0,
            ChessPieceType::Knight => 1,
            ChessPieceType::Bishop => 2,
            ChessPieceType::Rook => 3,
            ChessPieceType::Queen => 4,
            ChessPieceType::King => 5,
            ChessPieceType::Empty => 6,
        }
    }

    pub fn idx(self) -> (r: usize)
        ensures
            r == self.spec_idx(),
            r < 7,
    {
        match self {
            ChessPieceType::Pawn => 0,
            ChessPieceType::Knight => 1,
            ChessPieceType::Bishop => 2,
            ChessPieceType::Rook => 3,
            ChessPieceType::Queen => 4,
            ChessPieceType::King => 5,
            ChessPieceType::Empty => 6,
        }
    }

    pub open spec fn spec_from_idx(i: int) -> ChessPieceType {
        if i == 0 {
            ChessPieceType::Pawn
        } else if i == 1 {
            ChessPieceType::Knight
        } else if i == 2 {
            ChessPieceType::Bishop
        } else if i == 3 {
            ChessPieceType::Rook
        } else if i == 4 {
            ChessPieceType::Queen
        } else if i == 5 {
            ChessPieceType::King
        } else {
            ChessPieceType::Empty
        }
    }

    /// The piece type with the given index; indices from 6 on give `Empty`.
    pub fn from_idx(i: usize) -> (r: ChessPieceType)
        ensures
            r == Self::spec_from_idx(i as int),
            i < 7 ==> r.spec_idx() == i,
    {
        if i == 0 {
            ChessPieceType::Pawn
        } else if i == 1 {
            ChessPieceType::Knight
        } else if i == 2 {
            ChessPieceType::Bishop
        } else if i == 3 {
            ChessPieceType::Rook
        } else if i == 4 {
            ChessPieceType::Queen
        } else if i == 5 {
            ChessPieceType::King
        } else {
            ChessPieceType::Empty
        }
    }

    /// The English name of the piece type.
    pub fn to_name(self) -> (r: &'static str)
        ensures
            r@ == spec_piece_name(self),
    {
        match self {
            ChessPieceType::Pawn => "pawn",
            ChessPieceType::Knight => "knight",
            ChessPieceType::Bishop => "bishop",
            ChessPieceType::Rook => "rook",
            ChessPieceType::Queen => "queen",
            ChessPieceType::King => "king",
            ChessPieceType::Empty => "empty",
        }
    }

    /// Parses a piece letter (case-insensitive, also German letters and Unicode symbols);
    /// a space is the empty square.
    pub fn parse_from_char(c: char) -> (r: Option<ChessPieceType>)
        ensures
            r == spec_piece_from_char(c),
    {
        let lower = to_ascii_lower(c);
        if lower == ' ' {
            Some(ChessPieceType::Empty)
        } else if lower == 'p' || c == '\u{1FA05}' || c == '\u{2659}' || c == '\u{265F}' {
            Some(ChessPieceType::Pawn)
        } else if lower == 'n' || lower == 's' || c == '\u{1FA04}' || c == '\u{2658}' || c
            == '\u{265E}' {
            Some(ChessPieceType::Knight)
        } else if lower == 'b' || lower == 'l' || c == '\u{1FA03}' || c == '\u{2657}' || c
            == '\u{265D}' {
            Some(ChessPieceType::Bishop)
        } else if lower == 'r' || lower == 't' || c == '\u{1FA02}' || c == '\u{2656}' || c
            == '\u{265C}' {
            Some(ChessPieceType::Rook)
        } else if lower == 'q' || lower == 'd' || c == '\u{1FA01}' || c == '\u{2655}' || c
            == '\u{265B}' {
            Some(ChessPieceType::Queen)
        } else if lower == 'k' || c == '\u{1FA00}' || c == '\u{2654}' || c == '\u{265A}' {
            Some(ChessPieceType::King)
        } else {
            None
        }
    }

    /// The character used for the (uncolored) piece.
    pub fn to_char(self, typ: CharType) -> (c: char)
        ensures
            c == spec_uncolored_char(self, typ),
    {
        match typ {
            CharType::Ascii => match self {
                ChessPieceType::Empty => '.',
                ChessPieceType::Pawn => 'p',
                ChessPieceType::Knight => 'N',
                ChessPieceType::Bishop => 'B',
                ChessPieceType::Rook => 'R',
                ChessPieceType::Queen => 'Q',
                ChessPieceType::King => 'K',
            },
            CharType::Unicode => match self {
                ChessPieceType::Empty => '.',
                ChessPieceType::Pawn => '\u{2659}',
                ChessPieceType::Knight => '\u{265E}',
                ChessPieceType::Bishop => '\u{265D}',
                ChessPieceType::Rook => '\u{265C}',
                ChessPieceType::Queen => '\u{265B}',
                ChessPieceType::King => '\u{265A}',
            },
        }
    }
}

pub open spec fn spec_piece_name(p: ChessPieceType) -> Seq<char> {
    match p {
        ChessPieceType::Pawn => "pawn"@,
        ChessPieceType::Knight => "knight"@,
        ChessPieceType::Bishop => "bishop"@,
        ChessPieceType::Rook => "rook"@,
        ChessPieceType::Queen => "queen"@,
        ChessPieceType::King => "king"@,
        ChessPieceType::Empty => "empty"@,
    }
}

pub open spec fn spec_uncolored_char(p: ChessPieceType, typ: CharType) -> char {
    match typ {
        CharType::Ascii => match p {
            ChessPieceType::Empty => '.',
            ChessPieceType::Pawn => 'p',
            ChessPieceType::Knight => 'N',
            ChessPieceType::Bishop => 'B',
            ChessPieceType::Rook => 'R',
            ChessPieceType::Queen => 'Q',
            ChessPieceType::King => 'K',
        },
        CharType::Unicode => match p {
            ChessPieceType::Empty => '.',
            ChessPieceType::Pawn => '\u{2659}',
            ChessPieceType::Knight => '\u{265E}',
            ChessPieceType::Bishop => '\u{265D}',
            ChessPieceType::Rook => '\u{265C}',
            ChessPieceType::Queen => '\u{265B}',
            ChessPieceType::King => '\u{265A}',
        },
    }
}

/// The lowercase version of an ASCII uppercase letter; other characters are unchanged.
pub open spec fn spec_to_ascii_lower(c: char) -> char {
    if 'A' <= c <= 'Z' {
        ((c as u32) + 32) as char
    } else {
        c
    }
}

/// The uppercase version of an ASCII lowercase letter; other characters are unchanged.
pub open spec fn spec_to_ascii_upper(c: char) -> char {
    if 'a' <= c <= 'z' {
        ((c as u32) - 32) as char
    } else {
        c
    }
}

/// `char::to_ascii_lowercase`.
pub fn to_ascii_lower(c: char) -> (r: char)
    ensures
        r == spec_to_ascii_lower(c),
{
    if 'A' <= c && c <= 'Z' {
        ((c as u32 + 32) as u8) as char
    } else {
        c
    }
}

/// `char::to_ascii_uppercase`.
pub fn to_ascii_upper(c: char) -> (r: char)
    ensures
        r == spec_to_ascii_upper(c),
{
    if 'a' <= c && c <= 'z' {
        ((c as u32 - 32) as u8) as char
    } else {
        c
    }
}

pub open spec fn spec_piece_from_char(c: char) -> Option<ChessPieceType> {
    let lower = spec_to_ascii_lower(c);
    if lower == ' ' {
        Some(ChessPieceType::Empty)
    } else if lower == 'p' || c == '\u{1FA05}' || c == '\u{2659}' || c == '\u{265F}' {
        Some(ChessPieceType::Pawn)
    } else if lower == 'n' || lower == 's' || c == '\u{1FA04}' || c == '\u{2658}' || c
        == '\u{265E}' {
        Some(ChessPieceType::Knight)
    } else if lower == 'b' || lower == 'l' || c == '\u{1FA03}' || c == '\u{2657}' || c
        == '\u{265D}' {
        Some(ChessPieceType::Bishop)
    } else if lower == 'r' || lower == 't' || c == '\u{1FA02}' || c == '\u{2656}' || c
        == '\u{265C}' {
        Some(ChessPieceType::Rook)
    } else if lower == 'q' || lower == 'd' || c == '\u{1FA01}' || c == '\u{2655}' || c
        == '\u{265B}' {
        Some(ChessPieceType::Queen)
    } else if lower == 'k' || c == '\u{1FA00}' || c == '\u{2654}' || c == '\u{265A}' {
        Some(ChessPieceType::King)
    } else {
        None
    }
}

/// A piece type together with its color, or `Empty`.
#[derive(Copy, Clone, Eq, PartialEq, Structural, Debug, Hash)]
pub enum ColoredChessPieceType {
    WhitePawn,
    WhiteKnight,
    WhiteBishop,
    WhiteRook,
    WhiteQueen,
    WhiteKing,
    Empty,
    BlackPawn,
    BlackKnight,
    BlackBishop,
    BlackRook,
    BlackQueen,
    BlackKing,
}

/// The colored piece a FEN letter stands for: uppercase is white, lowercase is black; German
/// letters and Unicode symbols are accepted too, and a space is `Empty`.
pub open spec fn spec_colored_from_char(c: char) -> Option<ColoredChessPieceType> {
    if c == ' ' {
        Some(ColoredChessPieceType::Empty)
    } else if c == 'P' || c == '\u{2659}' {
        Some(ColoredChessPieceType::WhitePawn)
    } else if c == 'N' || c == 'S' || c == '\u{2658}' {
        Some(ColoredChessPieceType::WhiteKnight)
    } else if c == 'B' || c == 'L' || c == '\u{2657}' {
        Some(ColoredChessPieceType::WhiteBishop)
    } else if c == 'R' || c == 'T' || c == '\u{2656}' {
        Some(ColoredChessPieceType::WhiteRook)
    } else if c == 'Q' || c == 'D' || c == '\u{2655}' {
        Some(ColoredChessPieceType::WhiteQueen)
    } else if c == 'K' || c == '\u{2654}' {
        Some(ColoredChessPieceType::WhiteKing)
    } else if c == 'p' || c == '\u{265F}' {
        Some(ColoredChessPieceType::BlackPawn)
    } else if c == 'n' || c == 's' || c == '\u{265E}' {
        Some(ColoredChessPieceType::BlackKnight)
    } else if c == 'b' || c == 'l' || c == '\u{265D}' {
        Some(ColoredChessPieceType::BlackBishop)
    } else if c == 'r' || c == 't' || c == '\u{265C}' {
        Some(ColoredChessPieceType::BlackRook)
    } else if c == 'q' || c == 'd' || c == '\u{265B}' {
        Some(ColoredChessPieceType::BlackQueen)
    } else if c == 'k' || c == '\u{265A}' {
        Some(ColoredChessPieceType::BlackKing)
    } else {
        None
    }
}

impl ColoredChessPieceType {
    pub open spec fn spec_color(self) -> Option<ChessColor> {
        match self {
            ColoredChessPieceType::Empty => None,
            ColoredChessPieceType::WhitePawn | ColoredChessPieceType::WhiteKnight
            | ColoredChessPieceType::WhiteBishop | ColoredChessPieceType::WhiteRook
            | ColoredChessPieceType::WhiteQueen | ColoredChessPieceType::WhiteKing => Some(
                ChessColor::White,
            ),
            _ => Some(ChessColor::Black),
        }
    }

    pub open spec fn spec_uncolor(self) -> ChessPieceType {
        match self {
            ColoredChessPieceType::WhitePawn | ColoredChessPieceType::BlackPawn => ChessPieceType::Pawn,
            ColoredChessPieceType::WhiteKnight | ColoredChessPieceType::BlackKnight => ChessPieceType::Knight,
            ColoredChessPieceType::WhiteBishop | ColoredChessPieceType::BlackBishop => ChessPieceType::Bishop,
            ColoredChessPieceType::WhiteRook | ColoredChessPieceType::BlackRook => ChessPieceType::Rook,
            ColoredChessPieceType::WhiteQueen | ColoredChessPieceType::BlackQueen => ChessPieceType::Queen,
            ColoredChessPieceType::WhiteKing | ColoredChessPieceType::BlackKing => ChessPieceType::King,
            ColoredChessPieceType::Empty => ChessPieceType::Empty,
        }
    }

    /// The color of the piece, `None` for `Empty`.
    pub fn color(self) -> (r: Option<ChessColor>)
        ensures
            r == self.spec_color(),
    {
        match self {
            ColoredChessPieceType::Empty => None,
            ColoredChessPieceType::WhitePawn | ColoredChessPieceType::WhiteKnight
            | ColoredChessPieceType::WhiteBishop | ColoredChessPieceType::WhiteRook
            | ColoredChessPieceType::WhiteQueen | ColoredChessPieceType::WhiteKing => Some(
                ChessColor::White,
            ),
            _ => Some(ChessColor::Black),
        }
    }

    /// The piece type without its color.
    pub fn uncolor(self) -> (r: ChessPieceType)
        ensures
            r == self.spec_uncolor(),
    {
        match self {
            ColoredChessPieceType::WhitePawn | ColoredChessPieceType::BlackPawn => ChessPieceType::Pawn,
            ColoredChessPieceType::WhiteKnight | ColoredChessPieceType::BlackKnight => ChessPieceType::Knight,
            ColoredChessPieceType::WhiteBishop | ColoredChessPieceType::BlackBishop => ChessPieceType::Bishop,
            ColoredChessPieceType::WhiteRook | ColoredChessPieceType::BlackRook => ChessPieceType::Rook,
            ColoredChessPieceType::WhiteQueen | ColoredChessPieceType::BlackQueen => ChessPieceType::Queen,
            ColoredChessPieceType::WhiteKing | ColoredChessPieceType::BlackKing => ChessPieceType::King,
            ColoredChessPieceType::Empty => ChessPieceType::Empty,
        }
    }

    /// The colored piece of the given color and type; `Empty` stays `Empty`.
    pub open spec fn spec_new(color: ChessColor, piece: ChessPieceType) -> ColoredChessPieceType {
        match (color, piece) {
            (_, ChessPieceType::Empty) => ColoredChessPieceType::Empty,
            (ChessColor::White, ChessPieceType::Pawn) => ColoredChessPieceType::WhitePawn,
            (ChessColor::White, ChessPieceType::Knight) => ColoredChessPieceType::WhiteKnight,
            (ChessColor::White, ChessPieceType::Bishop) => ColoredChessPieceType::WhiteBishop,
            (ChessColor::White, ChessPieceType::Rook) => ColoredChessPieceType::WhiteRook,
            (ChessColor::White, ChessPieceType::Queen) => ColoredChessPieceType::WhiteQueen,
            (ChessColor::White, ChessPieceType::King) => ColoredChessPieceType::WhiteKing,
            (ChessColor::Black, ChessPieceType::Pawn) => ColoredChessPieceType::BlackPawn,
            (ChessColor::Black, ChessPieceType::Knight) => ColoredChessPieceType::BlackKnight,
            (ChessColor::Black, ChessPieceType::Bishop) => ColoredChessPieceType::BlackBishop,
            (ChessColor::Black, ChessPieceType::Rook) => ColoredChessPieceType::BlackRook,
            (ChessColor::Black, ChessPieceType::Queen) => ColoredChessPieceType::BlackQueen,
            (ChessColor::Black, ChessPieceType::King) => ColoredChessPieceType::BlackKing,
        }
    }

    /// The colored piece of the given color and type; `Empty` stays `Empty`.
    pub fn new(color: ChessColor, piece: ChessPieceType) -> (r: ColoredChessPieceType)
        ensures
            r == Self::spec_new(color, piece),
            r.spec_uncolor() == piece,
            piece != ChessPieceType::Empty ==> r.spec_color() == Some(color),
            piece == ChessPieceType::Empty ==> r.spec_color().is_none(),
    {
        match (color, piece) {
            (_, ChessPieceType::Empty) => ColoredChessPieceType::Empty,
            (ChessColor::White, ChessPieceType::Pawn) => ColoredChessPieceType::WhitePawn,
            (ChessColor::White, ChessPieceType::Knight) => ColoredChessPieceType::WhiteKnight,
            (ChessColor::White, ChessPieceType::Bishop) => ColoredChessPieceType::WhiteBishop,
            (ChessColor::White, ChessPieceType::Rook) => ColoredChessPieceType::WhiteRook,
            (ChessColor::White, ChessPieceType::Queen) => ColoredChessPieceType::WhiteQueen,
            (ChessColor::White, ChessPieceType::King) => ColoredChessPieceType::WhiteKing,
            (ChessColor::Black, ChessPieceType::Pawn) => ColoredChessPieceType::BlackPawn,
            (ChessColor::Black, ChessPieceType::Knight) => ColoredChessPieceType::BlackKnight,
            (ChessColor::Black, ChessPieceType::Bishop) => ColoredChessPieceType::BlackBishop,
            (ChessColor::Black, ChessPieceType::Rook) => ColoredChessPieceType::BlackRook,
            (ChessColor::Black, ChessPieceType::Queen) => ColoredChessPieceType::BlackQueen,
            (ChessColor::Black, ChessPieceType::King) => ColoredChessPieceType::BlackKing,
        }
    }

    /// Parses a FEN piece letter: uppercase is white, lowercase is black; German letters and
    /// Unicode symbols are accepted too, and a space is `Empty`.
    pub fn parse_from_char(c: char) -> (r: Option<ColoredChessPieceType>)
        ensures
            r.is_some() ==> r.unwrap().spec_uncolor() != ChessPieceType::Empty || c == ' ',
            'A' <= c <= 'Z' && r.is_some() ==> r.unwrap().spec_color() == Some(ChessColor::White),
            'a' <= c <= 'z' && r.is_some() ==> r.unwrap().spec_color() == Some(ChessColor::Black),
            c == 'P' ==> r == Some(ColoredChessPieceType::WhitePawn),
            c == 'N' ==> r == Some(ColoredChessPieceType::WhiteKnight),
            c == 'B' ==> r == Some(ColoredChessPieceType::WhiteBishop),
            c == 'R' ==> r == Some(ColoredChessPieceType::WhiteRook),
            c == 'Q' ==> r == Some(ColoredChessPieceType::WhiteQueen),
            c == 'K' ==> r == Some(ColoredChessPieceType::WhiteKing),
            c == 'p' ==> r == Some(ColoredChessPieceType::BlackPawn),
            c == 'n' ==> r == Some(ColoredChessPieceType::BlackKnight),
            c == 'b' ==> r == Some(ColoredChessPieceType::BlackBishop),
            c == 'r' ==> r == Some(ColoredChessPieceType::BlackRook),
            c == 'q' ==> r == Some(ColoredChessPieceType::BlackQueen),
            c == 'k' ==> r == Some(ColoredChessPieceType::BlackKing),
            ('0' <= c <= '9' || c == '/') ==> r.is_none(),
            r == spec_colored_from_char(c),
    {
        if c == ' ' {
            Some(ColoredChessPieceType::Empty)
        } else if c == 'P' || c == '\u{2659}' {
            Some(ColoredChessPieceType::WhitePawn)
        } else if c == 'N' || c == 'S' || c == '\u{2658}' {
            Some(ColoredChessPieceType::WhiteKnight)
        } else if c == 'B' || c == 'L' || c == '\u{2657}' {
            Some(ColoredChessPieceType::WhiteBishop)
        } else if c == 'R' || c == 'T' || c == '\u{2656}' {
            Some(ColoredChessPieceType::WhiteRook)
        } else if c == 'Q' || c == 'D' || c == '\u{2655}' {
            Some(ColoredChessPieceType::WhiteQueen)
        } else if c == 'K' || c == '\u{2654}' {
            Some(ColoredChessPieceType::WhiteKing)
        } else if c == 'p' || c == '\u{265F}' {
            Some(ColoredChessPieceType::BlackPawn)
        } else if c == 'n' || c == 's' || c == '\u{265E}' {
            Some(ColoredChessPieceType::BlackKnight)
        } else if c == 'b' || c == 'l' || c == '\u{265D}' {
            Some(ColoredChessPieceType::BlackBishop)
        } else if c == 'r' || c == 't' || c == '\u{265C}' {
            Some(ColoredChessPieceType::BlackRook)
        } else if c == 'q' || c == 'd' || c == '\u{265B}' {
            Some(ColoredChessPieceType::BlackQueen)
        } else if c == 'k' || c == '\u{265A}' {
            Some(ColoredChessPieceType::BlackKing)
        } else {
            None
        }
    }

    /// The FEN letter of the piece (uppercase for white), `.` for `Empty`.
    pub fn to_ascii_char(self) -> (c: char)
        ensures
            self.spec_color() == Some(ChessColor::White) ==> c == spec_to_ascii_upper(
                spec_uncolored_char(self.spec_uncolor(), CharType::Ascii),
            ),
            self.spec_color() == Some(ChessColor::Black) ==> c == spec_to_ascii_lower(
                spec_uncolored_char(self.spec_uncolor(), CharType::Ascii),
            ),
            self.spec_color().is_none() ==> c == '.',
    {
        match self {
            ColoredChessPieceType::Empty => '.',
            ColoredChessPieceType::WhitePawn => 'P',
            ColoredChessPieceType::WhiteKnight => 'N',
            ColoredChessPieceType::WhiteBishop => 'B',
            ColoredChessPieceType::WhiteRook => 'R',
            ColoredChessPieceType::WhiteQueen => 'Q',
            ColoredChessPieceType::WhiteKing => 'K',
            ColoredChessPieceType::BlackPawn => 'p',
            ColoredChessPieceType::BlackKnight => 'n',
            ColoredChessPieceType::BlackBishop => 'b',
            ColoredChessPieceType::BlackRook => 'r',
            ColoredChessPieceType::BlackQueen => 'q',
            ColoredChessPieceType::BlackKing => 'k',
        }
    }
}

impl crate::games::Color for ChessColor {
    open spec fn spec_is_first(self) -> bool {
        self == ChessColor::White
    }

    fn first() -> (r: Self) {
        ChessColor::White
    }

    fn second() -> (r: Self) {
        ChessColor::Black
    }

    fn is_first(self) -> (r: bool) {
        self == ChessColor::White
    }

    fn other(self) -> (r: Self) {
        ChessColor::other(self)
    }

    fn to_char(self) -> (r: char) {
        self.ascii_color_char()
    }
}

impl crate::games::AbstractPieceType for ChessPieceType {
    fn empty() -> (r: Self) {
        ChessPieceType::Empty
    }

    fn to_char(self, typ: CharType) -> (r: char) {
        ChessPieceType::to_char(self, typ)
    }

    fn from_char(c: char) -> (r: Option<Self>) {
        ChessPieceType::parse_from_char(c)
    }

    fn to_uncolored_idx(self) -> (r: usize) {
        self.idx()
    }
}

/// The Unicode chess symbol of a colored piece: white symbols for white pieces, black symbols for
/// black ones.
pub open spec fn spec_figurine(p: ColoredChessPieceType) -> char {
    match p {
        ColoredChessPieceType::Empty => '.',
        ColoredChessPieceType::WhitePawn => '\u{2659}',
        ColoredChessPieceType::WhiteKnight => '\u{2658}',
        ColoredChessPieceType::WhiteBishop => '\u{2657}',
        ColoredChessPieceType::WhiteRook => '\u{2656}',
        ColoredChessPieceType::WhiteQueen => '\u{2655}',
        ColoredChessPieceType::WhiteKing => '\u{2654}',
        ColoredChessPieceType::BlackPawn => '\u{265F}',
        ColoredChessPieceType::BlackKnight => '\u{265E}',
        ColoredChessPieceType::BlackBishop => '\u{265D}',
        ColoredChessPieceType::BlackRook => '\u{265C}',
        ColoredChessPieceType::BlackQueen => '\u{265B}',
        ColoredChessPieceType::BlackKing => '\u{265A}',
    }
}

impl ColoredChessPieceType {
    /// The Unicode chess symbol of the piece, in its own color.
    pub fn figurine(self) -> (r: char)
        ensures
            r == spec_figurine(self),
    {
        match self {
            ColoredChessPieceType::Empty => '.',
            ColoredChessPieceType::WhitePawn => '\u{2659}',
            ColoredChessPieceType::WhiteKnight => '\u{2658}',
            ColoredChessPieceType::WhiteBishop => '\u{2657}',
            ColoredChessPieceType::WhiteRook => '\u{2656}',
            ColoredChessPieceType::WhiteQueen => '\u{2655}',
            ColoredChessPieceType::WhiteKing => '\u{2654}',
            ColoredChessPieceType::BlackPawn => '\u{265F}',
            ColoredChessPieceType::BlackKnight => '\u{265E}',
            ColoredChessPieceType::BlackBishop => '\u{265D}',
            ColoredChessPieceType::BlackRook => '\u{265C}',
            ColoredChessPieceType::BlackQueen => '\u{265B}',
            ColoredChessPieceType::BlackKing => '\u{265A}',
        }
    }
}

impl crate::games::AbstractPieceType for ColoredChessPieceType {
    fn empty() -> (r: Self) {
        ColoredChessPieceType::Empty
    }

    fn to_char(self, typ: CharType) -> (r: char) {
        match typ {
            CharType::Ascii => self.to_ascii_char(),
            CharType::Unicode => self.figurine(),
        }
    }

    fn from_char(c: char) -> (r: Option<Self>) {
        ColoredChessPieceType::parse_from_char(c)
    }

    fn to_uncolored_idx(self) -> (r: usize) {
        self.uncolor().idx()
    }
}

} // verus!
