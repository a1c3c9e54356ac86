//! Squares, moves and positions, and how a move changes a position.

use vstd::prelude::*;
use crate::piece::{Piece, PieceColor, PieceType};

verus! {

/// The index of the square on file `x` and rank `y`.
pub open spec fn sq(x: int, y: int) -> int {
    8 * y + x
}

pub open spec fn in_bounds(x: int, y: int) -> bool {
    0 <= x <= 7 && 0 <= y <= 7
}

/// The index of the square with coordinates `(x, y)`: `8 * y + x`.
pub fn to_offset(x: i32, y: i32) -> (r: i32)
    requires
        i32::MIN <= 8 * y <= i32::MAX,
        i32::MIN <= 8 * y + x <= i32::MAX,
    ensures
        r == sq(x as int, y as int),
{
    8 * y + x
}

/// The coordinates `(file, rank)` of the square with index `idx`.
pub fn to_coord(idx: u32) -> (r: (u32, u32))
    ensures
        r.0 == idx % 8,
        r.1 == idx / 8,
        idx < 64 ==> sq(r.0 as int, r.1 as int) == idx && in_bounds(r.0 as int, r.1 as int),
{
    (idx % 8, idx / 8)
}

/// Whether `(x, y)` lies on the board.
pub fn inbounds(x: i32, y: i32) -> (r: bool)
    ensures
        r == in_bounds(x as int, y as int),
{
    0 <= x && x <= 7 && 0 <= y && y <= 7
}

/// The rank on which a color's king and rooks start.
pub open spec fn home_rank(c: PieceColor) -> int {
    if c == PieceColor::White { 7 } else { 0 }
}

/// The position of a color's castling rights: two per color, the left
/// (file 0) rook's first.
pub open spec fn right_index(c: PieceColor, right: bool) -> int {
    (if c == PieceColor::White { 0int } else { 2int }) + (if right { 1int } else { 0int })
}

/// A move from one square to another, naming the piece a pawn promotes to.
#[derive(Copy, Clone, Debug)]
pub struct Move {
    pub from: (u32, u32),
    pub to: (u32, u32),
    pub promotion: Option<Piece>,
}

impl Move {
    pub open spec fn x1(self) -> int {
        self.from.0 as int
    }

    pub open spec fn y1(self) -> int {
        self.from.1 as int
    }

    pub open spec fn x2(self) -> int {
        self.to.0 as int
    }

    pub open spec fn y2(self) -> int {
        self.to.1 as int
    }

    /// Origin and destination.
    pub fn coords(self) -> (r: ((u32, u32), (u32, u32)))
        ensures
            r == (self.from, self.to),
    {
        (self.from, self.to)
    }

    /// A move that promotes nothing.
    pub fn from_coords(from: (u32, u32), to: (u32, u32)) -> (r: Move)
        ensures
            r == (Move { from, to, promotion: None }),
    {
        Move { from, to, promotion: None }
    }
}

impl PartialEq for Move {
    fn eq(&self, other: &Move) -> (r: bool) {
        self.from.0 == other.from.0 && self.from.1 == other.from.1 && self.to.0 == other.to.0
            && self.to.1 == other.to.1 && self.promotion == other.promotion
    }
}

impl vstd::std_specs::cmp::PartialEqSpecImpl for Move {
    open spec fn obeys_eq_spec() -> bool {
        true
    }

    open spec fn eq_spec(&self, other: &Move) -> bool {
        *self == *other
    }
}

impl Eq for Move {
}

/// What a position is: 64 cells, four castling rights and the square a pawn
/// may capture onto en passant.
pub struct BoardView {
    pub cells: Seq<Option<Piece>>,
    pub rights: Seq<bool>,
    pub ep: Option<(u32, u32)>,
}

pub open spec fn swap_cells(s: Seq<Option<Piece>>, i: int, j: int) -> Seq<Option<Piece>> {
    s.update(i, s[j]).update(j, s[i])
}

impl BoardView {
    pub open spec fn at(self, x: int, y: int) -> Option<Piece> {
        self.cells[sq(x, y)]
    }

    pub open spec fn shaped(self) -> bool {
        self.cells.len() == 64 && self.rights.len() == 4
    }

    /// Whether `mv` starts from a piece and stays on the board.
    pub open spec fn move_fits(self, mv: Move) -> bool {
        &&& in_bounds(mv.x1(), mv.y1())
        &&& in_bounds(mv.x2(), mv.y2())
        &&& self.at(mv.x1(), mv.y1()).is_some()
    }

    /// Whether `mv` may be applied: it starts from a piece and stays on the
    /// board, only a pawn names a promotion, and a king stepping two files
    /// does so along its home rank with the castling right kept and a rook in
    /// that corner.
    pub open spec fn move_applies(self, mv: Move) -> bool {
        let p = self.at(mv.x1(), mv.y1())->Some_0;
        let rook_x = if mv.x2() > mv.x1() { 7int } else { 0int };
        &&& self.move_fits(mv)
        &&& mv.promotion is Some ==> p.class == PieceType::Pawn
        &&& self.is_castling(mv) ==> {
            &&& mv.y1() == mv.y2()
            &&& mv.y1() == home_rank(p.color)
            &&& self.rights[right_index(p.color, mv.x2() > mv.x1())]
            &&& self.at(rook_x, mv.y1()) matches Some(q) && q.class == PieceType::Rook
        }
    }

    /// Whether `mv` is a king stepping two files: a castling move.
    pub open spec fn is_castling(self, mv: Move) -> bool {
        &&& self.at(mv.x1(), mv.y1()) matches Some(p)
        &&& p.class == PieceType::King
        &&& (mv.x1() - mv.x2() == 2 || mv.x2() - mv.x1() == 2)
    }

    /// Whether `mv` is a pawn landing on the en-passant square, which is empty.
    pub open spec fn is_en_passant(self, mv: Move) -> bool {
        &&& self.at(mv.x1(), mv.y1()) matches Some(p)
        &&& p.class == PieceType::Pawn
        &&& mv.promotion.is_none()
        &&& self.at(mv.x2(), mv.y2()).is_none()
        &&& self.ep == Some(mv.to)
    }

    /// Whether `mv` is a pawn moving two ranks along its file.
    pub open spec fn is_double_push(self, mv: Move) -> bool {
        &&& self.at(mv.x1(), mv.y1()) matches Some(p)
        &&& p.class == PieceType::Pawn
        &&& mv.promotion.is_none()
        &&& mv.x1() == mv.x2()
        &&& (mv.y1() - mv.y2() == 2 || mv.y2() - mv.y1() == 2)
    }

    /// The castling rights after the piece `p` leaves `(x, y)` in an
    /// ordinary move.
    pub open spec fn rights_after(self, p: Piece, x: int, y: int) -> Seq<bool> {
        if p.class == PieceType::King {
            self.rights.update(right_index(p.color, false), false).update(
                right_index(p.color, true),
                false,
            )
        } else if p.class == PieceType::Rook && y == home_rank(p.color) && x == 0 {
            self.rights.update(right_index(p.color, false), false)
        } else if p.class == PieceType::Rook && y == home_rank(p.color) && x == 7 {
            self.rights.update(right_index(p.color, true), false)
        } else {
            self.rights
        }
    }

    /// The position after `mv`.
    #[verifier::opaque]
    pub open spec fn apply(self, mv: Move) -> BoardView {
        let (x1, y1, x2, y2) = (mv.x1(), mv.y1(), mv.x2(), mv.y2());
        let p = self.at(x1, y1)->Some_0;
        if self.is_castling(mv) {
            let rook_x = if x2 > x1 { 7 } else { 0int };
            let new_rook_x = if x2 > x1 { x1 + 1 } else { x1 - 1 };
            let king_moved = swap_cells(self.cells, sq(x1, y1), sq(x2, y2));
            BoardView {
                cells: swap_cells(king_moved, sq(rook_x, y1), sq(new_rook_x, y1)),
                rights: self.rights.update(right_index(p.color, false), false).update(
                    right_index(p.color, true),
                    false,
                ),
                ep: None,
            }
        } else if mv.promotion is Some {
            BoardView {
                cells: self.cells.update(sq(x1, y1), None).update(sq(x2, y2), mv.promotion),
                rights: self.rights,
                ep: None,
            }
        } else {
            let moved = self.cells.update(sq(x2, y2), Some(p)).update(sq(x1, y1), None);
            BoardView {
                cells: if self.is_en_passant(mv) {
                    moved.update(sq(x2, y1), None)
                } else {
                    moved
                },
                rights: self.rights_after(p, x1, y1),
                ep: if self.is_double_push(mv) {
                    Some((mv.to.0, ((y1 + y2) / 2) as u32))
                } else {
                    None
                },
            }
        }
    }
}

/// A move that fits the board leaves 64 cells and four castling rights.
pub proof fn lemma_apply_shaped(v: BoardView, mv: Move)
    requires
        v.shaped(),
        v.move_fits(mv),
    ensures
        v.apply(mv).shaped(),
{
    reveal(BoardView::apply);
}

/// The pair `(a, b)` in increasing order.
pub fn sort2(a: u32, b: u32) -> (r: (u32, u32))
    ensures
        r.0 <= r.1,
        (r.0 == a && r.1 == b) || (r.0 == b && r.1 == a),
{
    if a < b { (a, b) } else { (b, a) }
}

/// The position after each move of `ms` in turn.
pub open spec fn apply_all(v: BoardView, ms: Seq<Move>) -> BoardView
    decreases ms.len(),
{
    if ms.len() == 0 {
        v
    } else {
        apply_all(v, ms.drop_last()).apply(ms.last())
    }
}

/// A castling right, once lost, stays lost: no move restores it.
pub proof fn lemma_right_stays_lost(v: BoardView, mv: Move, k: int)
    requires
        v.rights.len() == 4,
        0 <= k < 4,
        !v.rights[k],
    ensures
        v.apply(mv).rights.len() == 4,
        !v.apply(mv).rights[k],
{
    reveal(BoardView::apply);
}

/// A castling right, once lost, stays lost after any sequence of moves.
pub proof fn lemma_rights_monotone(v: BoardView, ms: Seq<Move>, k: int)
    requires
        v.rights.len() == 4,
        0 <= k < 4,
        !v.rights[k],
    ensures
        apply_all(v, ms).rights.len() == 4,
        !apply_all(v, ms).rights[k],
    decreases ms.len(),
{
    if ms.len() > 0 {
        lemma_rights_monotone(v, ms.drop_last(), k);
        lemma_right_stays_lost(apply_all(v, ms.drop_last()), ms.last(), k);
    }
}

/// The kind of the piece that starts on file `x` of a back rank.
pub open spec fn back_rank_kind(x: int) -> PieceType {
    if x == 0 || x == 7 {
        PieceType::Rook
    } else if x == 1 || x == 6 {
        PieceType::Knight
    } else if x == 2 || x == 5 {
        PieceType::Bishop
    } else if x == 3 {
        PieceType::Queen
    } else {
        PieceType::King
    }
}

/// The piece on square `i` in the standard starting position: Black on
/// ranks 0 and 1, White on ranks 6 and 7.
pub open spec fn initial_cell(i: int) -> Option<Piece> {
    let (x, y) = (i % 8, i / 8);
    if y == 0 {
        Some(Piece { class: back_rank_kind(x), color: PieceColor::Black })
    } else if y == 1 {
        Some(Piece { class: PieceType::Pawn, color: PieceColor::Black })
    } else if y == 6 {
        Some(Piece { class: PieceType::Pawn, color: PieceColor::White })
    } else if y == 7 {
        Some(Piece { class: back_rank_kind(x), color: PieceColor::White })
    } else {
        None
    }
}

/// The standard starting position: full castling rights, no en-passant square.
pub open spec fn initial_view() -> BoardView {
    BoardView {
        cells: Seq::new(64, |i: int| initial_cell(i)),
        rights: seq![true, true, true, true],
        ep: None,
    }
}

fn back_rank_kind_at(x: u32) -> (r: PieceType)
    ensures
        r == back_rank_kind(x as int),
{
    if x == 0 || x == 7 {
        PieceType::Rook
    } else if x == 1 || x == 6 {
        PieceType::Knight
    } else if x == 2 || x == 5 {
        PieceType::Bishop
    } else if x == 3 {
        PieceType::Queen
    } else {
        PieceType::King
    }
}

/// A position: the pieces on the 64 squares (index `8 * rank + file`), the
/// castling rights (White's left and right, then Black's) and the en-passant
/// square.
#[derive(Copy, Clone, Debug)]
pub struct Board {
    pub board: [Option<Piece>; 64],
    pub castling_rights: [bool; 4],
    pub en_passant_square: Option<(u32, u32)>,
}

impl View for Board {
    type V = BoardView;

    open spec fn view(&self) -> BoardView {
        BoardView { cells: self.board@, rights: self.castling_rights@, ep: self.en_passant_square }
    }
}

/// The position of `c`'s first castling right.
pub fn color_index(c: PieceColor) -> (r: usize)
    ensures
        r == right_index(c, false),
{
    match c {
        PieceColor::White => 0,
        PieceColor::Black => 2,
    }
}

impl Board {
    /// The standard starting position.
    pub fn new() -> (r: Board)
        ensures
            r@ == initial_view(),
    {
        let mut board: [Option<Piece>; 64] = [None; 64];
        let mut j: u32 = 0;
        while j < 8
            invariant
                j <= 8,
                forall|i: int| 0 <= i < 64 ==> board@[i] == if (i / 8 == 0 || i / 8 == 1 || i / 8 == 6 || i / 8 == 7) && i % 8 < j {
                    initial_cell(i)
                } else {
                    None
                },
            decreases 8 - j,
        {
            let kind = back_rank_kind_at(j);
            board[j as usize] = Some(Piece::new(kind, PieceColor::Black));
            board[(8 + j) as usize] = Some(Piece::new(PieceType::Pawn, PieceColor::Black));
            board[(48 + j) as usize] = Some(Piece::new(PieceType::Pawn, PieceColor::White));
            board[(56 + j) as usize] = Some(Piece::new(kind, PieceColor::White));
            j = j + 1;
        }
        let r = Board { board, castling_rights: [true; 4], en_passant_square: None };
        assert(r@.cells =~= initial_view().cells);
        assert(r@.rights =~= initial_view().rights);
        r
    }

    /// The position after 1. e4 d5 (White's e-pawn on rank 4, Black's
    /// d-pawn on rank 3), with full castling rights and no en-passant square.
    pub fn after_e4_d5() -> (r: Board)
        ensures
            r@ == (BoardView {
                cells: initial_view().cells.update(sq(3, 1), None).update(
                    sq(3, 3),
                    Some(Piece { class: PieceType::Pawn, color: PieceColor::Black }),
                ).update(sq(4, 6), None).update(
                    sq(4, 4),
                    Some(Piece { class: PieceType::Pawn, color: PieceColor::White }),
                ),
                ..initial_view()
            }),
    {
        let mut b = Board::new();
        b.set(11, None);
        b.set(27, Some(Piece::new(PieceType::Pawn, PieceColor::Black)));
        b.set(52, None);
        b.set(36, Some(Piece::new(PieceType::Pawn, PieceColor::White)));
        b
    }

    /// The piece on the square with index `idx`.
    pub fn get(&self, idx: usize) -> (r: Option<Piece>)
        requires
            idx < 64,
        ensures
            r == self@.cells[idx as int],
    {
        self.board[idx]
    }

    /// The piece on file `x`, rank `y`.
    pub fn at(&self, x: u32, y: u32) -> (r: Option<Piece>)
        requires
            in_bounds(x as int, y as int),
        ensures
            r == self@.at(x as int, y as int),
    {
        self.board[(8 * y + x) as usize]
    }

    /// Puts `p` on the square with index `idx`.
    pub fn set(&mut self, idx: usize, p: Option<Piece>)
        requires
            idx < 64,
        ensures
            final(self)@ == (BoardView { cells: old(self)@.cells.update(idx as int, p), ..old(self)@ }),
    {
        self.board[idx] = p;
    }

    /// Puts `p` on file `x`, rank `y`.
    pub fn set_at(&mut self, x: u32, y: u32, p: Option<Piece>)
        requires
            in_bounds(x as int, y as int),
        ensures
            final(self)@ == (BoardView {
                cells: old(self)@.cells.update(sq(x as int, y as int), p),
                ..old(self)@
            }),
    {
        self.board[(8 * y + x) as usize] = p;
    }

    /// Whether `color` may still castle with its left (file 0) or right
    /// (file 7) rook.
    pub fn castling_right(&self, color: PieceColor, right: bool) -> (r: bool)
        ensures
            r == self@.rights[right_index(color, right)],
    {
        self.castling_rights[color_index(color) + if right { 1 } else { 0 }]
    }

    fn swap_squares(&mut self, i: usize, j: usize)
        requires
            i < 64,
            j < 64,
        ensures
            final(self)@ == (BoardView {
                cells: swap_cells(old(self)@.cells, i as int, j as int),
                ..old(self)@
            }),
    {
        let a = self.board[i];
        let b = self.board[j];
        self.board[i] = b;
        self.board[j] = a;
    }

    /// The position after `mv`. Applying a move that starts from an empty
    /// square or leaves the board, a promotion by a piece other than a pawn,
    /// or a king's two-file step without the castling right or the corner
    /// rook, is a caller's error.
    pub fn apply_move(&self, mv: Move) -> (r: Board)
        requires
            self@.move_applies(mv),
        ensures
            r@ == self@.apply(mv),
    {
        reveal(BoardView::apply);
        let ((x1, y1), (x2, y2)) = mv.coords();
        let mut board = *self;
        let en_passant_square = board.en_passant_square;
        board.en_passant_square = None;
        let from = (8 * y1 + x1) as usize;
        let to = (8 * y2 + x2) as usize;
        let piece = match board.board[from] {
            Some(p) => p,
            None => { return board; },
        };
        let ci = color_index(piece.color);
        if piece.class == PieceType::King && (x1 == x2 + 2 || x2 == x1 + 2) {
            let is_rook_right = x2 > x1;
            let rook_x: u32 = if is_rook_right { 7 } else { 0 };
            let new_rook_x: u32 = if is_rook_right { x1 + 1 } else { x1 - 1 };
            board.swap_squares(from, to);
            board.swap_squares((8 * y1 + rook_x) as usize, (8 * y1 + new_rook_x) as usize);
            board.castling_rights[ci] = false;
            board.castling_rights[ci + 1] = false;
            board
        } else if let Some(promo) = mv.promotion {
            board.board[from] = None;
            board.board[to] = Some(promo);
            board
        } else {
            match piece.class {
                PieceType::King => {
                    board.castling_rights[ci] = false;
                    board.castling_rights[ci + 1] = false;
                },
                PieceType::Rook => {
                    let home: u32 = if piece.color.is_white() { 7 } else { 0 };
                    if y1 == home && x1 == 0 {
                        board.castling_rights[ci] = false;
                    } else if y1 == home && x1 == 7 {
                        board.castling_rights[ci + 1] = false;
                    }
                },
                PieceType::Pawn => {
                    if x1 == x2 && (y1 == y2 + 2 || y2 == y1 + 2) {
                        board.en_passant_square = Some((x2, (y1 + y2) / 2));
                    }
                },
                _ => {},
            }
            let captures_en_passant = piece.class == PieceType::Pawn && board.board[to].is_none()
                && match en_passant_square {
                Some((ex, ey)) => ex == x2 && ey == y2,
                None => false,
            };
            board.board[to] = Some(piece);
            board.board[from] = None;
            if captures_en_passant {
                board.board[(8 * y1 + x2) as usize] = None;
            }
            board
        }
    }
}

/// A new game: the standard starting position.
pub fn new_game() -> (r: Board)
    ensures
        r@ == initial_view(),
{
    Board::new()
}

} // verus!
