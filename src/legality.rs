//! The legality oracle: the geometric rules a move must obey, and whether a
//! side is in check or checkmated.

use vstd::prelude::*;
use crate::piece::{Piece, PieceColor, PieceType, is_promotion_kind};
use crate::board::{Board, BoardView, Move, home_rank, in_bounds, inbounds, right_index, sort2, sq, to_coord};
use crate::movegen::{all_fit, pseudo_moves_for_player, pseudo_upto, all_from, last_rank, moves_for_piece, pawn_home_rank, piece_moves, pieces_between, do_pieces_exist_x1x2};

verus! {

pub open spec fn sign(d: int) -> int {
    if d > 0 {
        1
    } else if d < 0 {
        -1
    } else {
        0
    }
}

pub open spec fn abs(d: int) -> int {
    if d < 0 { -d } else { d }
}

/// Whether the squares from `(x, y)` up to, not including, `(x2, y2)`,
/// stepping by `(sx, sy)`, are empty.
pub open spec fn clear_from(v: BoardView, x: int, y: int, x2: int, y2: int, sx: int, sy: int, fuel: nat) -> bool
    decreases fuel,
{
    if fuel == 0 || (x == x2 && y == y2) {
        true
    } else {
        in_bounds(x, y) && v.at(x, y).is_none() && clear_from(v, x + sx, y + sy, x2, y2, sx, sy, (fuel - 1) as nat)
    }
}

/// Whether every square strictly between `(x1, y1)` and `(x2, y2)`, which lie
/// on one line, is empty.
pub open spec fn path_clear(v: BoardView, x1: int, y1: int, x2: int, y2: int) -> bool {
    let (sx, sy) = (sign(x2 - x1), sign(y2 - y1));
    clear_from(v, x1 + sx, y1 + sy, x2, y2, sx, sy, 8)
}

pub open spec fn bishop_legal(v: BoardView, x1: int, y1: int, x2: int, y2: int) -> bool {
    abs(x1 - x2) == abs(y1 - y2) && path_clear(v, x1, y1, x2, y2)
}

pub open spec fn rook_legal(v: BoardView, x1: int, y1: int, x2: int, y2: int) -> bool {
    ((x1 == x2) != (y1 == y2)) && path_clear(v, x1, y1, x2, y2)
}

/// Whether a pawn's move has the right promotion: a knight, bishop, rook or
/// queen of its color on the last rank, none elsewhere.
pub open spec fn promotion_ok(mv: Move, c: PieceColor) -> bool {
    if mv.y2() == last_rank(c) {
        match mv.promotion {
            Some(q) => is_promotion_kind(q.class) && q.color == c,
            None => false,
        }
    } else {
        mv.promotion.is_none()
    }
}

/// The shape of a pawn move of color `c`, as the generator makes them.
pub open spec fn pawn_legal(v: BoardView, mv: Move, c: PieceColor) -> bool {
    let (x1, y1, x2, y2) = (mv.x1(), mv.y1(), mv.x2(), mv.y2());
    let d = c.direction_spec();
    let shape = match v.at(x2, y2) {
        Some(q) => q.color != c && abs(x1 - x2) == 1 && y2 - y1 == d,
        None => if x1 != x2 {
            v.ep == Some(mv.to) && abs(x1 - x2) == 1 && y2 - y1 == d
        } else {
            y2 - y1 == d || (y1 == pawn_home_rank(c) && y2 - y1 == 2 * d && v.at(x1, y1 + d).is_none())
        },
    };
    shape && promotion_ok(mv, c)
}

/// The shape of a king move: one step, or castling from its home square.
pub open spec fn king_legal(v: BoardView, mv: Move, c: PieceColor) -> bool {
    let (x1, y1, x2, y2) = (mv.x1(), mv.y1(), mv.x2(), mv.y2());
    let xd = abs(x1 - x2);
    if xd <= 1 {
        abs(y1 - y2) <= 1
    } else if xd == 2 {
        let right = x2 > x1;
        let rook_x = if right { 7int } else { 0int };
        let lo = if right { x1 } else { rook_x };
        let hi = if right { rook_x } else { x1 };
        &&& y1 == y2
        &&& y1 == home_rank(c)
        &&& x1 == 4
        &&& v.rights[right_index(c, right)]
        &&& v.at(rook_x, y1) == Some(Piece { class: PieceType::Rook, color: c })
        &&& !pieces_between(v, y1, lo + 1, hi - 1)
    } else {
        false
    }
}

/// Whether `mv` obeys the geometry and capture rules of the piece it moves,
/// whatever it does to its own king.
pub open spec fn move_legal(v: BoardView, mv: Move) -> bool {
    let (x1, y1, x2, y2) = (mv.x1(), mv.y1(), mv.x2(), mv.y2());
    if !in_bounds(x1, y1) || !in_bounds(x2, y2) || (x1 == x2 && y1 == y2) {
        false
    } else {
        match v.at(x1, y1) {
            None => false,
            Some(p) => {
                let onto_own = match v.at(x2, y2) {
                    Some(q) => q.color == p.color,
                    None => false,
                };
                if onto_own || (p.class != PieceType::Pawn && mv.promotion.is_some()) {
                    false
                } else {
                    match p.class {
                        PieceType::Pawn => pawn_legal(v, mv, p.color),
                        PieceType::Knight => (abs(x1 - x2) == 1 && abs(y1 - y2) == 2) || (abs(x1 - x2) == 2
                            && abs(y1 - y2) == 1),
                        PieceType::Bishop => bishop_legal(v, x1, y1, x2, y2),
                        PieceType::Rook => rook_legal(v, x1, y1, x2, y2),
                        PieceType::Queen => if abs(x1 - x2) == abs(y1 - y2) {
                            bishop_legal(v, x1, y1, x2, y2)
                        } else {
                            rook_legal(v, x1, y1, x2, y2)
                        },
                        PieceType::King => king_legal(v, mv, p.color),
                    }
                }
            },
        }
    }
}

fn abs_diff(a: u32, b: u32) -> (r: u32)
    ensures
        r == abs(a - b),
{
    if a < b { b - a } else { a - b }
}

/// Whether the squares strictly between two squares on one line are empty.
fn is_path_clear(board: &Board, x1: u32, y1: u32, x2: u32, y2: u32) -> (r: bool)
    requires
        in_bounds(x1 as int, y1 as int),
        in_bounds(x2 as int, y2 as int),
    ensures
        r == path_clear(board@, x1 as int, y1 as int, x2 as int, y2 as int),
{
    let sx: i32 = if x2 > x1 { 1 } else if x2 < x1 { -1 } else { 0 };
    let sy: i32 = if y2 > y1 { 1 } else if y2 < y1 { -1 } else { 0 };
    let mut x = x1 as i32 + sx;
    let mut y = y1 as i32 + sy;
    let mut fuel: u32 = 8;
    while fuel > 0 && !(x == x2 as i32 && y == y2 as i32)
        invariant
            fuel <= 8,
            -1 <= sx <= 1,
            -1 <= sy <= 1,
            -1 <= x <= 8,
            -1 <= y <= 8,
            in_bounds(x1 as int, y1 as int),
            in_bounds(x2 as int, y2 as int),
            path_clear(board@, x1 as int, y1 as int, x2 as int, y2 as int)
                == clear_from(board@, x as int, y as int, x2 as int, y2 as int, sx as int, sy as int, fuel as nat),
        decreases fuel,
    {
        if !inbounds(x, y) || board.at(x as u32, y as u32).is_some() {
            return false;
        }
        x = x + sx;
        y = y + sy;
        fuel = fuel - 1;
    }
    true
}

/// Whether a bishop may go from `(x1, y1)` to `(x2, y2)`: along a diagonal
/// over empty squares.
fn is_bishop_move_legal(board: &Board, x1: u32, y1: u32, x2: u32, y2: u32) -> (r: bool)
    requires
        in_bounds(x1 as int, y1 as int),
        in_bounds(x2 as int, y2 as int),
    ensures
        r == bishop_legal(board@, x1 as int, y1 as int, x2 as int, y2 as int),
{
    abs_diff(x1, x2) == abs_diff(y1, y2) && is_path_clear(board, x1, y1, x2, y2)
}

/// Whether a rook may go from `(x1, y1)` to `(x2, y2)`: along a file or a
/// rank over empty squares.
fn is_rook_move_legal(board: &Board, x1: u32, y1: u32, x2: u32, y2: u32) -> (r: bool)
    requires
        in_bounds(x1 as int, y1 as int),
        in_bounds(x2 as int, y2 as int),
    ensures
        r == rook_legal(board@, x1 as int, y1 as int, x2 as int, y2 as int),
{
    ((x1 == x2) != (y1 == y2)) && is_path_clear(board, x1, y1, x2, y2)
}

fn is_promotion_ok(mv: Move, c: PieceColor) -> (r: bool)
    ensures
        r == promotion_ok(mv, c),
{
    let last: u32 = if c.is_white() { 0 } else { 7 };
    if mv.to.1 == last {
        match mv.promotion {
            Some(q) => (q.class == PieceType::Knight || q.class == PieceType::Bishop || q.class
                == PieceType::Rook || q.class == PieceType::Queen) && q.color == c,
            None => false,
        }
    } else {
        mv.promotion.is_none()
    }
}

fn is_pawn_move_legal(board: &Board, mv: Move, c: PieceColor) -> (r: bool)
    requires
        in_bounds(mv.x1(), mv.y1()),
        in_bounds(mv.x2(), mv.y2()),
    ensures
        r == pawn_legal(board@, mv, c),
{
    let ((x1, y1), (x2, y2)) = mv.coords();
    let d = c.direction();
    let y_dist = y2 as i32 - y1 as i32;
    let home: u32 = if c.is_white() { 6 } else { 1 };
    let shape = match board.at(x2, y2) {
        Some(q) => q.color != c && abs_diff(x1, x2) == 1 && y_dist == d,
        None => if x1 != x2 {
            let on_ep = match board.en_passant_square {
                Some((ex, ey)) => ex == x2 && ey == y2,
                None => false,
            };
            on_ep && abs_diff(x1, x2) == 1 && y_dist == d
        } else {
            y_dist == d || (y1 == home && y_dist == 2 * d && board.at(x1, (y1 as i32 + d) as u32).is_none())
        },
    };
    shape && is_promotion_ok(mv, c)
}

fn is_king_move_legal(board: &Board, mv: Move, c: PieceColor) -> (r: bool)
    requires
        in_bounds(mv.x1(), mv.y1()),
        in_bounds(mv.x2(), mv.y2()),
    ensures
        r == king_legal(board@, mv, c),
{
    let ((x1, y1), (x2, y2)) = mv.coords();
    let xd = abs_diff(x1, x2);
    if xd <= 1 {
        abs_diff(y1, y2) <= 1
    } else if xd == 2 {
        let home: u32 = if c.is_white() { 7 } else { 0 };
        if y1 != y2 || y1 != home || x1 != 4 {
            return false;
        }
        let is_rook_right = x2 > x1;
        if !board.castling_right(c, is_rook_right) {
            return false;
        }
        let rook_x: u32 = if is_rook_right { 7 } else { 0 };
        match board.at(rook_x, y1) {
            Some(q) => {
                if q.class != PieceType::Rook || q.color != c {
                    return false;
                }
            },
            None => { return false; },
        }
        let (lo, hi) = sort2(x1, rook_x);
        !do_pieces_exist_x1x2(board, y1, lo + 1, hi - 1)
    } else {
        false
    }
}

/// Whether `mv` obeys the geometry and capture rules of the piece it moves:
/// false for a move off the board, from an empty square, onto its own square
/// or onto a piece of the mover's color. Whether it exposes the mover's king
/// is not considered.
pub fn is_move_legal(board: &Board, mv: Move) -> (r: bool)
    ensures
        r == move_legal(board@, mv),
{
    let ((x1, y1), (x2, y2)) = mv.coords();
    if x1 > 7 || y1 > 7 || x2 > 7 || y2 > 7 || (x1 == x2 && y1 == y2) {
        return false;
    }
    let piece = match board.at(x1, y1) {
        Some(p) => p,
        None => { return false; },
    };
    let onto_own = match board.at(x2, y2) {
        Some(q) => q.color == piece.color,
        None => false,
    };
    if onto_own || (piece.class != PieceType::Pawn && mv.promotion.is_some()) {
        return false;
    }
    match piece.class {
        PieceType::Pawn => is_pawn_move_legal(board, mv, piece.color),
        PieceType::Knight => {
            let xd = abs_diff(x1, x2);
            let yd = abs_diff(y1, y2);
            (xd == 1 && yd == 2) || (xd == 2 && yd == 1)
        },
        PieceType::Bishop => is_bishop_move_legal(board, x1, y1, x2, y2),
        PieceType::Rook => is_rook_move_legal(board, x1, y1, x2, y2),
        PieceType::Queen => {
            if abs_diff(x1, x2) == abs_diff(y1, y2) {
                is_bishop_move_legal(board, x1, y1, x2, y2)
            } else {
                is_rook_move_legal(board, x1, y1, x2, y2)
            }
        },
        PieceType::King => is_king_move_legal(board, mv, piece.color),
    }
}

/// The pseudo-legal moves of the piece on the square with index `i`.
pub open spec fn square_moves(v: BoardView, i: int) -> Seq<Move> {
    piece_moves(v, i % 8, i / 8)
}

/// The first square, from index `i` on, holding the king of color `c`.
pub open spec fn first_king(v: BoardView, c: PieceColor, i: int) -> Option<int>
    decreases 64 - i,
{
    if i >= 64 {
        None
    } else if v.cells[i] == Some(Piece { class: PieceType::King, color: c }) {
        Some(i)
    } else {
        first_king(v, c, i + 1)
    }
}

/// Whether some piece of the side other than `c` has a pseudo-legal move
/// onto the square with index `k`.
pub open spec fn attacked(v: BoardView, c: PieceColor, k: int) -> bool {
    exists|i: int, j: int|
        0 <= i < 64 && (v.cells[i] matches Some(q) && q.color != c) && 0 <= j < square_moves(v, i).len()
            && (#[trigger] square_moves(v, i)[j]).to == ((k % 8) as u32, (k / 8) as u32)
}

/// Whether the king of color `c` is attacked. A position without that king
/// is not in check.
pub open spec fn in_check(v: BoardView, c: PieceColor) -> bool {
    match first_king(v, c, 0) {
        Some(k) => attacked(v, c, k),
        None => false,
    }
}

/// Whether no pseudo-legal move of color `c` leaves its king out of check.
pub open spec fn in_checkmate(v: BoardView, c: PieceColor) -> bool {
    !exists|i: int, j: int|
        0 <= i < 64 && (v.cells[i] matches Some(q) && q.color == c) && 0 <= j < square_moves(v, i).len()
            && !in_check(v.apply(#[trigger] square_moves(v, i)[j]), c)
}

/// The index of the first square holding the king of color `c`.
fn find_king(board: &Board, c: PieceColor) -> (r: Option<u32>)
    ensures
        r matches Some(k) ==> first_king(board@, c, 0) == Some(k as int),
        r is None ==> first_king(board@, c, 0) is None,
{
    let mut i: u32 = 0;
    while i < 64
        invariant
            i <= 64,
            first_king(board@, c, 0) == first_king(board@, c, i as int),
        decreases 64 - i,
    {
        match board.get(i as usize) {
            Some(p) => {
                if p.class == PieceType::King && p.color == c {
                    return Some(i);
                }
            },
            None => {},
        }
        i = i + 1;
    }
    None
}

/// Whether the king of color `c` is attacked by a piece of the other color:
/// some enemy piece has a pseudo-legal move onto its square. The enemy king
/// counts too, so kings may not stand side by side. Without that king on the
/// board the answer is false.
pub fn is_in_check(board: &Board, c: PieceColor) -> (r: bool)
    ensures
        r == in_check(board@, c),
{
    let k = match find_king(board, c) {
        Some(k) => k,
        None => { return false; },
    };
    let (kx, ky) = to_coord(k);
    let ghost v = board@;
    let mut i: u32 = 0;
    while i < 64
        invariant
            i <= 64,
            v == board@,
            first_king(v, c, 0) == Some(k as int),
            kx == k % 8,
            ky == k / 8,
            forall|i2: int, j2: int|
                0 <= i2 < i && (v.cells[i2] matches Some(q) && q.color != c) && 0 <= j2 < square_moves(v, i2).len()
                    ==> (#[trigger] square_moves(v, i2)[j2]).to != (kx, ky),
        decreases 64 - i,
    {
        match board.get(i as usize) {
            Some(p) => {
                if p.color != c {
                    let (x, y) = to_coord(i);
                    let moves = moves_for_piece(board, x, y);
                    let mut j: usize = 0;
                    while j < moves.len()
                        invariant
                            j <= moves@.len(),
                            v == board@,
                            i < 64,
                            v.cells[i as int] == Some(p),
                            p.color != c,
                            first_king(v, c, 0) == Some(k as int),
                            kx == k % 8,
                            ky == k / 8,
                            moves@ == square_moves(v, i as int),
                            forall|j2: int| 0 <= j2 < j ==> (#[trigger] square_moves(v, i as int)[j2]).to != (kx, ky),
                        decreases moves.len() - j,
                    {
                        let (tx, ty) = moves[j].to;
                        if tx == kx && ty == ky {
                            assert(square_moves(v, i as int)[j as int].to == (kx, ky));
                            assert(attacked(v, c, k as int));
                            return true;
                        }
                        j = j + 1;
                    }
                }
            },
            None => {},
        }
        i = i + 1;
    }
    false
}

/// Whether every pseudo-legal move of color `c` leaves its king in check.
/// Stalemate is not told apart from checkmate.
pub fn is_in_checkmate(board: &Board, c: PieceColor) -> (r: bool)
    ensures
        r == in_checkmate(board@, c),
{
    let ghost v = board@;
    let mut i: u32 = 0;
    while i < 64
        invariant
            i <= 64,
            v == board@,
            forall|i2: int, j2: int|
                0 <= i2 < i && (v.cells[i2] matches Some(q) && q.color == c) && 0 <= j2 < square_moves(v, i2).len()
                    ==> in_check(v.apply(#[trigger] square_moves(v, i2)[j2]), c),
        decreases 64 - i,
    {
        match board.get(i as usize) {
            Some(p) => {
                if p.color == c {
                    let (x, y) = to_coord(i);
                    let moves = moves_for_piece(board, x, y);
                    let mut j: usize = 0;
                    while j < moves.len()
                        invariant
                            j <= moves@.len(),
                            v == board@,
                            i < 64,
                            v.cells[i as int] == Some(p),
                            p.color == c,
                            x == i % 8,
                            y == i / 8,
                            moves@ == square_moves(v, i as int),
                            all_from(v, moves@, x as int, y as int),
                            forall|j2: int| 0 <= j2 < j ==> in_check(v.apply(#[trigger] square_moves(v, i as int)[j2]), c),
                        decreases moves.len() - j,
                    {
                        proof {
                            crate::agreement::lemma_generated_moves_legal(v, x as int, y as int);
                            assert(square_moves(v, i as int) == piece_moves(v, x as int, y as int));
                            assert(move_legal(v, piece_moves(v, x as int, y as int)[j as int]));
                            lemma_move_legal_applies(v, moves@[j as int]);
                        }
                        let after = board.apply_move(moves[j]);
                        if !is_in_check(&after, c) {
                            assert(!in_check(v.apply(square_moves(v, i as int)[j as int]), c));
                            return false;
                        }
                        j = j + 1;
                    }
                }
            },
            None => {},
        }
        i = i + 1;
    }
    true
}

/// Whether `mv` is legal for color `c`: it obeys the piece's rules and
/// does not leave the mover's king in check.
pub open spec fn legal_for(v: BoardView, c: PieceColor, mv: Move) -> bool {
    move_legal(v, mv) && !in_check(v.apply(mv), c)
}

/// The moves of `ms` that are legal for color `c`, in their order.
pub open spec fn keep_legal(v: BoardView, c: PieceColor, ms: Seq<Move>) -> Seq<Move>
    decreases ms.len(),
{
    if ms.len() == 0 {
        Seq::empty()
    } else {
        let rest = keep_legal(v, c, ms.drop_last());
        if legal_for(v, c, ms.last()) {
            rest.push(ms.last())
        } else {
            rest
        }
    }
}

/// The legal moves of color `c`, in generation order.
pub open spec fn player_moves(v: BoardView, c: PieceColor) -> Seq<Move> {
    keep_legal(v, c, pseudo_upto(v, c, 64))
}

/// The legal moves of the piece on `(x, y)`.
pub open spec fn destinations(v: BoardView, x: int, y: int) -> Seq<Move> {
    match v.at(x, y) {
        Some(p) => keep_legal(v, p.color, piece_moves(v, x, y)),
        None => Seq::empty(),
    }
}

/// Every move that the filter keeps is legal for `c`.
pub proof fn lemma_keep_legal(v: BoardView, c: PieceColor, ms: Seq<Move>)
    ensures
        forall|j: int| 0 <= j < keep_legal(v, c, ms).len() ==> legal_for(v, c, #[trigger] keep_legal(v, c, ms)[j]),
    decreases ms.len(),
{
    if ms.len() > 0 {
        lemma_keep_legal(v, c, ms.drop_last());
        let rest = keep_legal(v, c, ms.drop_last());
        assert forall|j: int| 0 <= j < keep_legal(v, c, ms).len() implies legal_for(
            v,
            c,
            #[trigger] keep_legal(v, c, ms)[j],
        ) by {
            if j < rest.len() {
                assert(keep_legal(v, c, ms)[j] == rest[j]);
            }
        }
    }
}

/// A move that obeys the oracle may be applied.
pub proof fn lemma_move_legal_applies(v: BoardView, mv: Move)
    requires
        move_legal(v, mv),
    ensures
        v.move_applies(mv),
{
}

/// A move legal for `c` may be applied.
pub proof fn lemma_legal_applies(v: BoardView, c: PieceColor, mv: Move)
    requires
        legal_for(v, c, mv),
    ensures
        v.move_applies(mv),
{
}

/// The moves of `moves` that are legal for color `c`.
fn retain_legal(board: &Board, c: PieceColor, moves: Vec<Move>) -> (r: Vec<Move>)
    requires
        all_fit(board@, moves@),
    ensures
        r@ == keep_legal(board@, c, moves@),
        all_fit(board@, r@),
{
    let mut kept: Vec<Move> = Vec::new();
    let mut j: usize = 0;
    while j < moves.len()
        invariant
            j <= moves@.len(),
            all_fit(board@, moves@),
            all_fit(board@, kept@),
            kept@ == keep_legal(board@, c, moves@.take(j as int)),
        decreases moves.len() - j,
    {
        let mv = moves[j];
        if is_move_legal(board, mv) && !{
            proof {
                lemma_move_legal_applies(board@, mv);
            }
            is_in_check(&board.apply_move(mv), c)
        } {
            kept.push(mv);
        }
        assert(moves@.take(j + 1).drop_last() =~= moves@.take(j as int));
        j = j + 1;
    }
    assert(moves@.take(moves@.len() as int) =~= moves@);
    kept
}

impl Board {
    /// The legal moves of color `c`: the pseudo-legal moves of its pieces,
    /// file by file, that obey their piece's rules and leave its king out
    /// of check.
    pub fn moves_for_player(&self, c: PieceColor) -> (r: Vec<Move>)
        ensures
            r@ == player_moves(self@, c),
            all_fit(self@, r@),
    {
        let moves = pseudo_moves_for_player(self, c);
        retain_legal(self, c, moves)
    }
}

/// The legal moves of the piece on `(x, y)`, promotion variants included;
/// none for an empty square.
pub fn legal_destinations(board: &Board, x: u32, y: u32) -> (r: Vec<Move>)
    requires
        in_bounds(x as int, y as int),
    ensures
        r@ == destinations(board@, x as int, y as int),
        all_fit(board@, r@),
{
    match board.at(x, y) {
        Some(p) => {
            let moves = moves_for_piece(board, x, y);
            retain_legal(board, p.color, moves)
        },
        None => Vec::new(),
    }
}

/// Whether applying `mv` may change the square with index `i`: its origin
/// and destination, the castling rook's corner and landing square, and the
/// square of a pawn taken en passant.
pub open spec fn touched(v: BoardView, mv: Move, i: int) -> bool {
    let (x1, y1, x2, y2) = (mv.x1(), mv.y1(), mv.x2(), mv.y2());
    ||| i == sq(x1, y1)
    ||| i == sq(x2, y2)
    ||| v.is_castling(mv) && (i == sq(if x2 > x1 { 7 } else { 0 }, y1) || i == sq(if x2 > x1 { x1 + 1 } else { x1 - 1 }, y1))
    ||| !v.is_castling(mv) && mv.promotion is None && v.is_en_passant(mv) && i == sq(x2, y1)
}

/// Applying a legal move relocates exactly the moving piece (promoted if it
/// promotes), plus the rook when castling, and empties the square of a pawn
/// taken en passant; every other square keeps its piece.
pub proof fn lemma_apply_moves_only(v: BoardView, mv: Move)
    requires
        v.shaped(),
        move_legal(v, mv),
    ensures
        ({
            let w = v.apply(mv);
            let (x1, y1, x2, y2) = (mv.x1(), mv.y1(), mv.x2(), mv.y2());
            let p = v.at(x1, y1)->Some_0;
            &&& forall|i: int| 0 <= i < 64 && !touched(v, mv, i) ==> w.cells[i] == v.cells[i]
            &&& w.at(x1, y1).is_none()
            &&& w.at(x2, y2) == if mv.promotion is Some { mv.promotion } else { Some(p) }
            &&& v.is_castling(mv) ==> {
                &&& w.at(if x2 > x1 { 7 } else { 0 }, y1).is_none()
                &&& w.at(if x2 > x1 { x1 + 1 } else { x1 - 1 }, y1) == v.at(if x2 > x1 { 7 } else { 0 }, y1)
            }
            &&& !v.is_castling(mv) && mv.promotion is None && v.is_en_passant(mv) ==> w.at(x2, y1).is_none()
        }),
{
    reveal(BoardView::apply);
    if v.is_castling(mv) {
        let x1 = mv.x1();
        let y1 = mv.y1();
        let x2 = mv.x2();
        if x2 > x1 {
            assert(v.at(5, y1).is_none() && v.at(6, y1).is_none());
        } else {
            assert(v.at(1, y1).is_none() && v.at(2, y1).is_none() && v.at(3, y1).is_none());
        }
    }
}

/// No move that the legal-move filter keeps for color `c` leaves `c`'s king
/// in check.
pub proof fn lemma_player_moves_safe(v: BoardView, c: PieceColor)
    ensures
        forall|j: int|
            0 <= j < player_moves(v, c).len() ==> !in_check(v.apply(#[trigger] player_moves(v, c)[j]), c),
{
    lemma_keep_legal(v, c, pseudo_upto(v, c, 64));
}

/// No legal destination of a piece leaves its own king in check.
pub proof fn lemma_destinations_safe(v: BoardView, x: int, y: int)
    requires
        v.at(x, y).is_some(),
    ensures
        forall|j: int|
            0 <= j < destinations(v, x, y).len() ==> !in_check(
                v.apply(#[trigger] destinations(v, x, y)[j]),
                v.at(x, y)->Some_0.color,
            ),
{
    lemma_keep_legal(v, v.at(x, y)->Some_0.color, piece_moves(v, x, y));
}

/// A pawn may capture en passant only right after the enemy's double push
/// over the square it captures onto: if a pawn's diagonal move onto an
/// empty square is legal after `mv`, then `mv` was a pawn's double push
/// passing over that square.
pub proof fn lemma_en_passant_window(v: BoardView, mv: Move, capture: Move)
    requires
        ({
            let w = v.apply(mv);
            &&& w.at(capture.x1(), capture.y1()) matches Some(p) && p.class == PieceType::Pawn
            &&& capture.x1() != capture.x2()
            &&& w.at(capture.x2(), capture.y2()).is_none()
            &&& move_legal(w, capture)
        }),
    ensures
        v.is_double_push(mv),
        capture.to == (mv.to.0, ((mv.y1() + mv.y2()) / 2) as u32),
{
    reveal(BoardView::apply);
}

} // verus!
