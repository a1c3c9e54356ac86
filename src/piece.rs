//! Colors, piece kinds and pieces.

use vstd::prelude::*;

verus! {

/// The two sides. White advances toward rank index 0, Black toward rank index 7.
#[derive(Copy, Clone, Debug, PartialEq, Eq, Structural)]
pub enum PieceColor {
    White,
    Black,
}

impl PieceColor {
    pub open spec fn opposite_spec(self) -> PieceColor {
        match self {
            PieceColor::White => PieceColor::Black,
            PieceColor::Black => PieceColor::White,
        }
    }

    /// The other side.
    #[verifier::when_used_as_spec(opposite_spec)]
    pub fn opposite(self) -> (r: PieceColor)
        ensures
            r == self.opposite_spec(),
    {
        match self {
            PieceColor::White => PieceColor::Black,
            PieceColor::Black => PieceColor::White,
        }
    }

    #[verifier::when_used_as_spec(is_white_spec)]
    pub fn is_white(self) -> (r: bool)
        ensures
            r == (self == PieceColor::White),
    {
        self == PieceColor::White
    }

    pub open spec fn is_white_spec(self) -> bool {
        self == PieceColor::White
    }

    pub fn is_black(self) -> (r: bool)
        ensures
            r == (self == PieceColor::Black),
    {
        self == PieceColor::Black
    }

    pub open spec fn direction_spec(self) -> int {
        if self == PieceColor::White { -1 } else { 1 }
    }

    /// The rank step of this color's pawns: -1 for White, 1 for Black.
    pub fn direction(self) -> (r: i32)
        ensures
            r == self.direction_spec(),
    {
        if self.is_white() { -1 } else { 1 }
    }
}

impl core::ops::Not for PieceColor {
    type Output = PieceColor;

    /// The other side.
    fn not(self) -> (r: PieceColor) {
        self.opposite()
    }
}

impl vstd::std_specs::ops::NotSpecImpl for PieceColor {
    open spec fn obeys_not_spec() -> bool {
        true
    }

    open spec fn not_req(self) -> bool {
        true
    }

    open spec fn not_spec(self) -> PieceColor {
        self.opposite_spec()
    }
}

/// The six kinds of chess pieces.
#[derive(Copy, Clone, Debug, PartialEq, Eq, Structural)]
pub enum PieceType {
    Pawn,
    Knight,
    Bishop,
    Rook,
    Queen,
    King,
}

/// A piece: its kind and its color.
#[derive(Copy, Clone, Debug, PartialEq, Eq, Structural)]
pub struct Piece {
    pub class: PieceType,
    pub color: PieceColor,
}

impl Piece {
    /// The piece of kind `class` and color `color`.
    pub fn new(class: PieceType, color: PieceColor) -> (r: Piece)
        ensures
            r.class == class,
            r.color == color,
    {
        Piece { class, color }
    }

    pub fn is_pawn(self) -> (r: bool)
        ensures
            r == (self.class == PieceType::Pawn),
    {
        self.class == PieceType::Pawn
    }

    pub fn is_knight(self) -> (r: bool)
        ensures
            r == (self.class == PieceType::Knight),
    {
        self.class == PieceType::Knight
    }

    pub fn is_bishop(self) -> (r: bool)
        ensures
            r == (self.class == PieceType::Bishop),
    {
        self.class == PieceType::Bishop
    }

    pub fn is_rook(self) -> (r: bool)
        ensures
            r == (self.class == PieceType::Rook),
    {
        self.class == PieceType::Rook
    }

    pub fn is_queen(self) -> (r: bool)
        ensures
            r == (self.class == PieceType::Queen),
    {
        self.class == PieceType::Queen
    }

    pub fn is_king(self) -> (r: bool)
        ensures
            r == (self.class == PieceType::King),
    {
        self.class == PieceType::King
    }
}

/// The kinds a pawn may promote to, in the order moves are generated.
pub open spec fn promotion_kind(k: int) -> PieceType {
    if k == 0 {
        PieceType::Knight
    } else if k == 1 {
        PieceType::Bishop
    } else if k == 2 {
        PieceType::Rook
    } else {
        PieceType::Queen
    }
}

/// Whether a pawn may promote to a piece of this kind.
pub open spec fn is_promotion_kind(t: PieceType) -> bool {
    t == PieceType::Knight || t == PieceType::Bishop || t == PieceType::Rook || t
        == PieceType::Queen
}

/// The `k`th promotion kind: knight, bishop, rook, queen.
pub fn promotion_kind_at(k: usize) -> (r: PieceType)
    requires
        k < 4,
    ensures
        r == promotion_kind(k as int),
{
    if k == 0 {
        PieceType::Knight
    } else if k == 1 {
        PieceType::Bishop
    } else if k == 2 {
        PieceType::Rook
    } else {
        PieceType::Queen
    }
}

} // verus!
