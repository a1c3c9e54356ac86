//! Static evaluation: material plus piece-square bonuses, positive for White.

use vstd::prelude::*;
use crate::piece::{PieceColor, PieceType};
use crate::board::{Board, BoardView, to_coord};
use crate::legality::{in_checkmate, is_in_checkmate};

verus! {

/// The score of a position in which the side to move is checkmated: from
/// White's side, the worst a color can get.
pub open spec fn mate_score(c: PieceColor) -> int {
    if c == PieceColor::White { -1_000_000 } else { 1_000_000 }
}

/// The material value of a piece kind.
pub open spec fn piece_value(k: PieceType) -> int {
    match k {
        PieceType::Pawn => 100,
        PieceType::Knight => 320,
        PieceType::Bishop => 330,
        PieceType::Rook => 500,
        PieceType::Queen => 900,
        PieceType::King => 20_000,
    }
}

/// The positional bonus table of a piece kind, indexed `8 * rank + file` as
/// White sees the board.
pub open spec fn piece_table(k: PieceType) -> Seq<int> {
    match k {
        PieceType::Pawn => seq![
            0, 0, 0, 0, 0, 0, 0, 0,
            50, 50, 50, 50, 50, 50, 50, 50,
            10, 10, 20, 30, 30, 20, 10, 10,
            5, 5, 10, 25, 25, 10, 5, 5,
            0, 0, 0, 20, 20, 0, 0, 0,
            5, -5, -10, 0, 0, -10, -5, 5,
            5, 10, 10, -20, -20, 10, 10, 5,
            0, 0, 0, 0, 0, 0, 0, 0,
        ],
        PieceType::Knight => seq![
            -50, -40, -30, -30, -30, -30, -40, -50,
            -40, -20, 0, 0, 0, 0, -20, -40,
            -30, 0, 10, 15, 15, 10, 0, -30,
            -30, 5, 15, 20, 20, 15, 5, -30,
            -30, 0, 15, 20, 20, 15, 0, -30,
            -30, 5, 10, 15, 15, 10, 5, -30,
            -40, -20, 0, 5, 5, 0, -20, -40,
            -50, -40, -30, -30, -30, -30, -40, -50,
        ],
        PieceType::Bishop => seq![
            -20, -10, -10, -10, -10, -10, -10, -20,
            -10, 0, 0, 0, 0, 0, 0, -10,
            -10, 0, 5, 10, 10, 5, 0, -10,
            -10, 5, 5, 10, 10, 5, 5, -10,
            -10, 0, 10, 10, 10, 10, 0, -10,
            -10, 10, 10, 10, 10, 10, 10, -10,
            -10, 5, 0, 0, 0, 0, 5, -10,
            -20, -10, -10, -10, -10, -10, -10, -20,
        ],
        PieceType::Rook => seq![
            0, 0, 0, 0, 0, 0, 0, 0,
            5, 10, 10, 10, 10, 10, 10, 5,
            -5, 0, 0, 0, 0, 0, 0, -5,
            -5, 0, 0, 0, 0, 0, 0, -5,
            -5, 0, 0, 0, 0, 0, 0, -5,
            -5, 0, 0, 0, 0, 0, 0, -5,
            -5, 0, 0, 0, 0, 0, 0, -5,
            0, 0, 0, 5, 5, 0, 0, 0,
        ],
        PieceType::Queen => seq![
            -20, -10, -10, -5, -5, -10, -10, -20,
            -10, 0, 0, 0, 0, 0, 0, -10,
            -10, 0, 5, 5, 5, 5, 0, -10,
            -5, 0, 5, 5, 5, 5, 0, -5,
            0, 0, 5, 5, 5, 5, 0, -5,
            -10, 5, 5, 5, 5, 5, 0, -10,
            -10, 0, 5, 0, 0, 0, 0, -10,
            -20, -10, -10, -5, -5, -10, -10, -20,
        ],
        PieceType::King => seq![
            -30, -40, -40, -50, -50, -40, -40, -30,
            -30, -40, -40, -50, -50, -40, -40, -30,
            -30, -40, -40, -50, -50, -40, -40, -30,
            -30, -40, -40, -50, -50, -40, -40, -30,
            -20, -30, -30, -40, -40, -30, -30, -20,
            -10, -20, -20, -20, -20, -20, -20, -10,
            20, 20, 0, 0, 0, 0, 20, 20,
            20, 30, 10, 0, 0, 10, 30, 20,
        ],
    }
}

fn piece_value_of(k: PieceType) -> (r: i32)
    ensures
        r == piece_value(k),
{
    match k {
        PieceType::Pawn => 100,
        PieceType::Knight => 320,
        PieceType::Bishop => 330,
        PieceType::Rook => 500,
        PieceType::Queen => 900,
        PieceType::King => 20_000,
    }
}

/// The bonus of a piece of kind `k` on index `i` of its table.
fn table_at(k: PieceType, i: usize) -> (r: i32)
    requires
        i < 64,
    ensures
        r == piece_table(k)[i as int],
        -50 <= r <= 50,
{
    let t: [i32; 64] = match k {
        PieceType::Pawn => [
            0, 0, 0, 0, 0, 0, 0, 0,
            50, 50, 50, 50, 50, 50, 50, 50,
            10, 10, 20, 30, 30, 20, 10, 10,
            5, 5, 10, 25, 25, 10, 5, 5,
            0, 0, 0, 20, 20, 0, 0, 0,
            5, -5, -10, 0, 0, -10, -5, 5,
            5, 10, 10, -20, -20, 10, 10, 5,
            0, 0, 0, 0, 0, 0, 0, 0,
        ],
        PieceType::Knight => [
            -50, -40, -30, -30, -30, -30, -40, -50,
            -40, -20, 0, 0, 0, 0, -20, -40,
            -30, 0, 10, 15, 15, 10, 0, -30,
            -30, 5, 15, 20, 20, 15, 5, -30,
            -30, 0, 15, 20, 20, 15, 0, -30,
            -30, 5, 10, 15, 15, 10, 5, -30,
            -40, -20, 0, 5, 5, 0, -20, -40,
            -50, -40, -30, -30, -30, -30, -40, -50,
        ],
        PieceType::Bishop => [
            -20, -10, -10, -10, -10, -10, -10, -20,
            -10, 0, 0, 0, 0, 0, 0, -10,
            -10, 0, 5, 10, 10, 5, 0, -10,
            -10, 5, 5, 10, 10, 5, 5, -10,
            -10, 0, 10, 10, 10, 10, 0, -10,
            -10, 10, 10, 10, 10, 10, 10, -10,
            -10, 5, 0, 0, 0, 0, 5, -10,
            -20, -10, -10, -10, -10, -10, -10, -20,
        ],
        PieceType::Rook => [
            0, 0, 0, 0, 0, 0, 0, 0,
            5, 10, 10, 10, 10, 10, 10, 5,
            -5, 0, 0, 0, 0, 0, 0, -5,
            -5, 0, 0, 0, 0, 0, 0, -5,
            -5, 0, 0, 0, 0, 0, 0, -5,
            -5, 0, 0, 0, 0, 0, 0, -5,
            -5, 0, 0, 0, 0, 0, 0, -5,
            0, 0, 0, 5, 5, 0, 0, 0,
        ],
        PieceType::Queen => [
            -20, -10, -10, -5, -5, -10, -10, -20,
            -10, 0, 0, 0, 0, 0, 0, -10,
            -10, 0, 5, 5, 5, 5, 0, -10,
            -5, 0, 5, 5, 5, 5, 0, -5,
            0, 0, 5, 5, 5, 5, 0, -5,
            -10, 5, 5, 5, 5, 5, 0, -10,
            -10, 0, 5, 0, 0, 0, 0, -10,
            -20, -10, -10, -5, -5, -10, -10, -20,
        ],
        PieceType::King => [
            -30, -40, -40, -50, -50, -40, -40, -30,
            -30, -40, -40, -50, -50, -40, -40, -30,
            -30, -40, -40, -50, -50, -40, -40, -30,
            -30, -40, -40, -50, -50, -40, -40, -30,
            -20, -30, -30, -40, -40, -30, -30, -20,
            -10, -20, -20, -20, -20, -20, -20, -10,
            20, 20, 0, 0, 0, 0, 20, 20,
            20, 30, 10, 0, 0, 10, 30, 20,
        ],
    };
    assert(t@.map_values(|e: i32| e as int) =~= piece_table(k));
    assert(t@.map_values(|e: i32| e as int)[i as int] == t@[i as int] as int);
    t[i]
}

/// The signed score of the square with index `i`: the piece's value plus
/// its bonus, its table read with the ranks mirrored for Black; positive for
/// White's pieces.
pub open spec fn square_score(v: BoardView, i: int) -> int {
    match v.cells[i] {
        None => 0,
        Some(p) => {
            let (x, y) = (i % 8, i / 8);
            let ty = if p.color == PieceColor::White { y } else { 7 - y };
            let s = piece_value(p.class) + piece_table(p.class)[8 * ty + x];
            if p.color == PieceColor::White { s } else { -s }
        },
    }
}

/// The sum of the scores of the first `k` squares.
pub open spec fn material(v: BoardView, k: int) -> int
    decreases k,
{
    if k <= 0 {
        0
    } else {
        material(v, k - 1) + square_score(v, k - 1)
    }
}

/// The static score of a position with `c` to move: the mate score if `c`
/// is checkmated, else the material sum.
pub open spec fn evaluation(v: BoardView, c: PieceColor) -> int {
    if in_checkmate(v, c) {
        mate_score(c)
    } else {
        material(v, 64)
    }
}

/// The largest absolute score of one square.
pub open spec fn square_bound() -> int {
    20_050
}

/// The material sum over `k` squares is at most `k` times the bound of one square.
pub proof fn lemma_material_bound(v: BoardView, k: int)
    requires
        v.shaped(),
        0 <= k <= 64,
    ensures
        -k * square_bound() <= material(v, k) <= k * square_bound(),
    decreases k,
{
    if k > 0 {
        lemma_material_bound(v, k - 1);
        lemma_square_bound(v, k - 1);
    }
}

/// No square scores beyond a king with its best bonus.
pub proof fn lemma_square_bound(v: BoardView, i: int)
    requires
        v.shaped(),
        0 <= i < 64,
    ensures
        -square_bound() <= square_score(v, i) <= square_bound(),
{
    if let Some(p) = v.cells[i] {
        let (x, y) = (i % 8, i / 8);
        let ty = if p.color == PieceColor::White { y } else { 7 - y };
        let j = 8 * ty + x;
        assert(0 <= j < 64);
        table_bound(p.class, j);
    }
}

proof fn table_bound(k: PieceType, j: int)
    requires
        0 <= j < 64,
    ensures
        -50 <= piece_table(k)[j] <= 50,
{
}

impl Board {
    /// The static score of the position with `to_move` to move, positive
    /// for White: -1,000,000 if White is checkmated, 1,000,000 if Black is,
    /// else the sum over the pieces of value plus positional bonus, signed
    /// by color.
    pub fn eval(&self, to_move: PieceColor) -> (r: i32)
        ensures
            r == evaluation(self@, to_move),
    {
        if is_in_checkmate(self, to_move) {
            return if to_move.is_white() { -1_000_000 } else { 1_000_000 };
        }
        let mut sum: i32 = 0;
        let mut i: u32 = 0;
        while i < 64
            invariant
                i <= 64,
                sum == material(self@, i as int),
                -(i as int) * 20_050 <= sum <= (i as int) * 20_050,
            decreases 64 - i,
        {
            proof {
                lemma_square_bound(self@, i as int);
            }
            match self.board[i as usize] {
                Some(p) => {
                    let (x, y) = to_coord(i);
                    let ty = if p.color.is_white() { y } else { 7 - y };
                    let s = piece_value_of(p.class) + table_at(p.class, (8 * ty + x) as usize);
                    sum = if p.color.is_white() { sum + s } else { sum - s };
                },
                None => {},
            }
            i = i + 1;
        }
        sum
    }
}

} // verus!
