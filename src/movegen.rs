//! Pseudo-legal move generation: every move a piece's geometry allows,
//! ignoring whether it leaves the mover's own king in check.

use vstd::prelude::*;
use crate::piece::{Piece, PieceColor, PieceType, promotion_kind, promotion_kind_at};
use crate::board::{Board, BoardView, Move, home_rank, in_bounds, inbounds, right_index, sort2};

verus! {

/// The move from `(x1, y1)` to `(x2, y2)` with no promotion.
pub open spec fn plain_move(x1: int, y1: int, x2: int, y2: int) -> Move {
    Move { from: (x1 as u32, y1 as u32), to: (x2 as u32, y2 as u32), promotion: None }
}

/// The four promoting moves from `(x1, y1)` to `(x2, y2)`, knight first,
/// then bishop, rook and queen.
pub open spec fn promotions(x1: int, y1: int, x2: int, y2: int, c: PieceColor) -> Seq<Move> {
    Seq::new(
        4,
        |k: int|
            Move {
                from: (x1 as u32, y1 as u32),
                to: (x2 as u32, y2 as u32),
                promotion: Some(Piece { class: promotion_kind(k), color: c }),
            },
    )
}

/// Whether a piece of color `c` may land on `(x, y)`: on the board, and
/// not onto a piece of its own color.
pub open spec fn can_land(v: BoardView, c: PieceColor, x: int, y: int) -> bool {
    in_bounds(x, y) && match v.at(x, y) {
        Some(q) => q.color != c,
        None => true,
    }
}

pub open spec fn knight_offset(k: int) -> (int, int) {
    if k == 0 {
        (-2, 1)
    } else if k == 1 {
        (-2, -1)
    } else if k == 2 {
        (2, 1)
    } else if k == 3 {
        (2, -1)
    } else if k == 4 {
        (1, -2)
    } else if k == 5 {
        (-1, -2)
    } else if k == 6 {
        (1, 2)
    } else {
        (-1, 2)
    }
}

pub open spec fn king_offset(k: int) -> (int, int) {
    if k == 0 {
        (-1, -1)
    } else if k == 1 {
        (0, -1)
    } else if k == 2 {
        (1, -1)
    } else if k == 3 {
        (-1, 0)
    } else if k == 4 {
        (1, 0)
    } else if k == 5 {
        (-1, 1)
    } else if k == 6 {
        (0, 1)
    } else {
        (1, 1)
    }
}

/// The direction vectors of the sliding pieces: the rook's four first,
/// then the bishop's four. A queen uses all eight.
pub open spec fn slide_direction(k: int) -> (int, int) {
    if k == 0 {
        (-1, 0)
    } else if k == 1 {
        (1, 0)
    } else if k == 2 {
        (0, 1)
    } else if k == 3 {
        (0, -1)
    } else if k == 4 {
        (-1, -1)
    } else if k == 5 {
        (-1, 1)
    } else if k == 6 {
        (1, -1)
    } else {
        (1, 1)
    }
}

pub open spec fn step_offset(knight: bool, k: int) -> (int, int) {
    if knight { knight_offset(k) } else { king_offset(k) }
}

/// The single-step moves of a knight or king on `(x, y)`, over the first `k`
/// offsets of its table.
pub open spec fn step_moves(v: BoardView, x: int, y: int, c: PieceColor, knight: bool, k: int) -> Seq<Move>
    decreases k,
{
    if k <= 0 {
        Seq::empty()
    } else {
        let prev = step_moves(v, x, y, c, knight, k - 1);
        let (dx, dy) = step_offset(knight, k - 1);
        if can_land(v, c, x + dx, y + dy) {
            prev.push(plain_move(x, y, x + dx, y + dy))
        } else {
            prev
        }
    }
}

/// The moves of a sliding piece of color `c` on `(x, y)` along one ray, from
/// `(xt, yt)` on: empty squares, then the first occupied one if it holds an
/// enemy. A ray crosses at most seven squares, so `fuel` 8 never cuts it short.
pub open spec fn ray(v: BoardView, x: int, y: int, c: PieceColor, xt: int, yt: int, dx: int, dy: int, fuel: nat) -> Seq<Move>
    decreases fuel,
{
    if fuel == 0 || !in_bounds(xt, yt) {
        Seq::empty()
    } else {
        match v.at(xt, yt) {
            Some(q) => if q.color != c {
                seq![plain_move(x, y, xt, yt)]
            } else {
                Seq::empty()
            },
            None => seq![plain_move(x, y, xt, yt)] + ray(v, x, y, c, xt + dx, yt + dy, dx, dy, (fuel - 1) as nat),
        }
    }
}

/// The moves of a sliding piece along the directions `first .. first + k`.
pub open spec fn slide_moves(v: BoardView, x: int, y: int, c: PieceColor, first: int, k: int) -> Seq<Move>
    decreases k,
{
    if k <= 0 {
        Seq::empty()
    } else {
        let (dx, dy) = slide_direction(first + k - 1);
        slide_moves(v, x, y, c, first, k - 1) + ray(v, x, y, c, x + dx, y + dy, dx, dy, 8)
    }
}

/// Whether a piece stands on rank `y` between files `x1` and `x2`, both included.
pub open spec fn pieces_between(v: BoardView, y: int, x1: int, x2: int) -> bool {
    exists|x: int| x1 <= x <= x2 && v.at(x, y).is_some()
}

/// The castling move of a king of color `c` on `(x, y)` toward the rook on
/// file `rook_x`, if any: the king on its home square, the right kept, the
/// rook of its color in the corner and the squares between them empty.
pub open spec fn castle_move(v: BoardView, x: int, y: int, c: PieceColor, rook_x: int) -> Seq<Move> {
    let lo = if x < rook_x { x } else { rook_x };
    let hi = if x < rook_x { rook_x } else { x };
    if y == home_rank(c) && x == 4 && v.rights[right_index(c, rook_x != 0)]
        && v.at(rook_x, y) == Some(Piece { class: PieceType::Rook, color: c })
        && !pieces_between(v, y, lo + 1, hi - 1) {
        seq![plain_move(x, y, if rook_x > x { x + 2 } else { x - 2 }, y)]
    } else {
        Seq::empty()
    }
}

/// A pawn's move to `(tx, ty)`: four promoting moves on the last rank, one
/// plain move elsewhere.
pub open spec fn pawn_to(x: int, y: int, tx: int, ty: int, c: PieceColor) -> Seq<Move> {
    if ty == last_rank(c) {
        promotions(x, y, tx, ty, c)
    } else {
        seq![plain_move(x, y, tx, ty)]
    }
}

/// The rank on which a pawn of color `c` promotes.
pub open spec fn last_rank(c: PieceColor) -> int {
    if c == PieceColor::White { 0 } else { 7 }
}

/// The rank from which a pawn of color `c` may advance two squares.
pub open spec fn pawn_home_rank(c: PieceColor) -> int {
    if c == PieceColor::White { 6 } else { 1 }
}

/// A diagonal pawn capture toward file offset `xoff`: onto an enemy piece,
/// or onto the empty en-passant square.
pub open spec fn pawn_capture(v: BoardView, x: int, y: int, c: PieceColor, xoff: int) -> Seq<Move> {
    let (ax, ay) = (x + xoff, y + c.direction_spec());
    if in_bounds(ax, ay) && match v.at(ax, ay) {
        Some(q) => q.color != c,
        None => v.ep == Some((ax as u32, ay as u32)),
    } {
        pawn_to(x, y, ax, ay, c)
    } else {
        Seq::empty()
    }
}

/// The moves of a pawn of color `c` on `(x, y)`: the single push, the double
/// push from its home rank, then the captures toward lower and higher files.
pub open spec fn pawn_moves(v: BoardView, x: int, y: int, c: PieceColor) -> Seq<Move> {
    let d = c.direction_spec();
    let single = if in_bounds(x, y + d) && v.at(x, y + d).is_none() {
        pawn_to(x, y, x, y + d, c)
    } else {
        Seq::empty()
    };
    let double = if y == pawn_home_rank(c) && v.at(x, y + 2 * d).is_none() && v.at(x, y + d).is_none() {
        seq![plain_move(x, y, x, y + 2 * d)]
    } else {
        Seq::empty()
    };
    single + double + pawn_capture(v, x, y, c, -1) + pawn_capture(v, x, y, c, 1)
}

/// The pseudo-legal moves of the piece on `(x, y)`, in generation order.
#[verifier::opaque]
pub open spec fn piece_moves(v: BoardView, x: int, y: int) -> Seq<Move> {
    match v.at(x, y) {
        None => Seq::empty(),
        Some(p) => match p.class {
            PieceType::Knight => step_moves(v, x, y, p.color, true, 8),
            PieceType::King => step_moves(v, x, y, p.color, false, 8) + castle_move(v, x, y, p.color, 0)
                + castle_move(v, x, y, p.color, 7),
            PieceType::Rook => slide_moves(v, x, y, p.color, 0, 4),
            PieceType::Bishop => slide_moves(v, x, y, p.color, 4, 4),
            PieceType::Queen => slide_moves(v, x, y, p.color, 0, 8),
            PieceType::Pawn => pawn_moves(v, x, y, p.color),
        },
    }
}

/// Every move in `ms` starts from `(x, y)` and ends on the board.
pub open spec fn all_from(v: BoardView, ms: Seq<Move>, x: int, y: int) -> bool {
    forall|j: int| 0 <= j < ms.len() ==> (#[trigger] ms[j]).from == (x as u32, y as u32) && v.move_fits(ms[j])
}

fn knight_offset_at(k: usize) -> (r: (i32, i32))
    requires
        k < 8,
    ensures
        r.0 == knight_offset(k as int).0,
        r.1 == knight_offset(k as int).1,
{
    if k == 0 {
        (-2, 1)
    } else if k == 1 {
        (-2, -1)
    } else if k == 2 {
        (2, 1)
    } else if k == 3 {
        (2, -1)
    } else if k == 4 {
        (1, -2)
    } else if k == 5 {
        (-1, -2)
    } else if k == 6 {
        (1, 2)
    } else {
        (-1, 2)
    }
}

fn king_offset_at(k: usize) -> (r: (i32, i32))
    requires
        k < 8,
    ensures
        r.0 == king_offset(k as int).0,
        r.1 == king_offset(k as int).1,
{
    if k == 0 {
        (-1, -1)
    } else if k == 1 {
        (0, -1)
    } else if k == 2 {
        (1, -1)
    } else if k == 3 {
        (-1, 0)
    } else if k == 4 {
        (1, 0)
    } else if k == 5 {
        (-1, 1)
    } else if k == 6 {
        (0, 1)
    } else {
        (1, 1)
    }
}

fn slide_direction_at(k: usize) -> (r: (i32, i32))
    requires
        k < 8,
    ensures
        r.0 == slide_direction(k as int).0,
        r.1 == slide_direction(k as int).1,
{
    if k == 0 {
        (-1, 0)
    } else if k == 1 {
        (1, 0)
    } else if k == 2 {
        (0, 1)
    } else if k == 3 {
        (0, -1)
    } else if k == 4 {
        (-1, -1)
    } else if k == 5 {
        (-1, 1)
    } else if k == 6 {
        (1, -1)
    } else {
        (1, 1)
    }
}

fn may_land(board: &Board, c: PieceColor, x: i32, y: i32) -> (r: bool)
    ensures
        r == can_land(board@, c, x as int, y as int),
{
    if inbounds(x, y) {
        match board.at(x as u32, y as u32) {
            Some(q) => q.color != c,
            None => true,
        }
    } else {
        false
    }
}

/// Appends the single-step moves of the knight (or king) of color `c` on `(x, y)`.
fn push_step_moves(board: &Board, x: u32, y: u32, c: PieceColor, knight: bool, moves: &mut Vec<Move>)
    requires
        in_bounds(x as int, y as int),
        board@.at(x as int, y as int).is_some(),
        all_from(board@, old(moves)@, x as int, y as int),
    ensures
        final(moves)@ == old(moves)@ + step_moves(board@, x as int, y as int, c, knight, 8),
        all_from(board@, final(moves)@, x as int, y as int),
{
    let ghost start = moves@;
    let mut k: usize = 0;
    while k < 8
        invariant
            k <= 8,
            in_bounds(x as int, y as int),
            board@.at(x as int, y as int).is_some(),
            moves@ == start + step_moves(board@, x as int, y as int, c, knight, k as int),
            all_from(board@, moves@, x as int, y as int),
        decreases 8 - k,
    {
        let (dx, dy) = if knight { knight_offset_at(k) } else { king_offset_at(k) };
        let xn = x as i32 + dx;
        let yn = y as i32 + dy;
        if may_land(board, c, xn, yn) {
            moves.push(Move::from_coords((x, y), (xn as u32, yn as u32)));
        }
        proof {
            assert(step_moves(board@, x as int, y as int, c, knight, k + 1) =~= step_moves(
                board@,
                x as int,
                y as int,
                c,
                knight,
                k as int,
            ) + (if can_land(board@, c, xn as int, yn as int) {
                seq![plain_move(x as int, y as int, xn as int, yn as int)]
            } else {
                Seq::empty()
            }));
        }
        k = k + 1;
    }
    assert(moves@ =~= start + step_moves(board@, x as int, y as int, c, knight, 8));
}

/// Appends the moves of the sliding piece of color `c` on `(x, y)` along
/// the directions `first .. first + count`.
fn moves_for_sliding_piece(board: &Board, x: u32, y: u32, c: PieceColor, first: usize, count: usize, moves: &mut Vec<Move>)
    requires
        in_bounds(x as int, y as int),
        board@.at(x as int, y as int).is_some(),
        first + count <= 8,
        all_from(board@, old(moves)@, x as int, y as int),
    ensures
        final(moves)@ == old(moves)@ + slide_moves(board@, x as int, y as int, c, first as int, count as int),
        all_from(board@, final(moves)@, x as int, y as int),
{
    let ghost start = moves@;
    let mut k: usize = 0;
    while k < count
        invariant
            k <= count,
            first + count <= 8,
            in_bounds(x as int, y as int),
            board@.at(x as int, y as int).is_some(),
            moves@ == start + slide_moves(board@, x as int, y as int, c, first as int, k as int),
            all_from(board@, moves@, x as int, y as int),
        decreases count - k,
    {
        let (dx, dy) = slide_direction_at(first + k);
        let ghost before = moves@;
        let mut xt = x as i32 + dx;
        let mut yt = y as i32 + dy;
        let mut fuel: u32 = 8;
        while fuel > 0 && inbounds(xt, yt)
            invariant
                fuel <= 8,
                -1 <= dx <= 1,
                -1 <= dy <= 1,
                -1 <= xt <= 8,
                -1 <= yt <= 8,
                in_bounds(x as int, y as int),
                board@.at(x as int, y as int).is_some(),
                all_from(board@, moves@, x as int, y as int),
                before + ray(board@, x as int, y as int, c, x + dx, y + dy, dx as int, dy as int, 8)
                    == moves@ + ray(board@, x as int, y as int, c, xt as int, yt as int, dx as int, dy as int, fuel as nat),
            ensures
                fuel == 0 || !in_bounds(xt as int, yt as int),
                all_from(board@, moves@, x as int, y as int),
                before + ray(board@, x as int, y as int, c, x + dx, y + dy, dx as int, dy as int, 8)
                    == moves@ + ray(board@, x as int, y as int, c, xt as int, yt as int, dx as int, dy as int, fuel as nat),
            decreases fuel,
        {
            let ghost r = ray(board@, x as int, y as int, c, xt as int, yt as int, dx as int, dy as int, fuel as nat);
            let m = Move::from_coords((x, y), (xt as u32, yt as u32));
            match board.at(xt as u32, yt as u32) {
                Some(q) => {
                    if q.color != c {
                        moves.push(m);
                    }
                    assert(moves@ =~= moves@ + ray(board@, x as int, y as int, c, xt as int, yt as int, dx as int, dy as int, 0));
                    fuel = 0;
                    proof {
                        assert(r == (if q.color != c { seq![m] } else { Seq::empty() }));
                        assert(before + ray(board@, x as int, y as int, c, x + dx, y + dy, dx as int, dy as int, 8) =~= moves@);
                    }
                    break;
                },
                None => {
                    moves.push(m);
                    proof {
                        let rest = ray(board@, x as int, y as int, c, xt + dx, yt + dy, dx as int, dy as int, (fuel - 1) as nat);
                        assert(r == seq![m] + rest);
                    }
                },
            }
            proof {
                let rest = ray(board@, x as int, y as int, c, xt + dx, yt + dy, dx as int, dy as int, (fuel - 1) as nat);
                assert(moves@.drop_last() + (seq![moves@.last()] + rest) =~= moves@ + rest);
            }
            xt = xt + dx;
            yt = yt + dy;
            fuel = fuel - 1;
        }
        proof {
            assert(ray(board@, x as int, y as int, c, xt as int, yt as int, dx as int, dy as int, fuel as nat) =~= Seq::empty());
            assert(moves@ =~= before + ray(board@, x as int, y as int, c, x + dx, y + dy, dx as int, dy as int, 8));
            assert(slide_moves(board@, x as int, y as int, c, first as int, k + 1) == slide_moves(board@, x as int, y as int, c, first as int, k as int)
                + ray(board@, x as int, y as int, c, x + dx, y + dy, dx as int, dy as int, 8));
            assert(moves@ =~= start + slide_moves(board@, x as int, y as int, c, first as int, k + 1));
        }
        k = k + 1;
    }
}

/// Whether a piece stands on rank `y` between files `x1` and `x2`, both included.
pub fn do_pieces_exist_x1x2(board: &Board, y: u32, x1: u32, x2: u32) -> (r: bool)
    requires
        y < 8,
        x2 < 8,
    ensures
        r == pieces_between(board@, y as int, x1 as int, x2 as int),
{
    let mut x: u32 = x1;
    while x <= x2
        invariant
            y < 8,
            x2 < 8,
            x1 <= x,
            forall|xx: int| x1 <= xx < x ==> board@.at(xx, y as int).is_none(),
        decreases 8 - x,
    {
        if board.at(x, y).is_some() {
            return true;
        }
        x = x + 1;
    }
    false
}

/// Appends the castling move of the king of color `c` on `(x, y)` toward
/// the rook on file `rook_x`, where castling is allowed.
fn push_castle_move(board: &Board, x: u32, y: u32, c: PieceColor, rook_x: u32, moves: &mut Vec<Move>)
    requires
        in_bounds(x as int, y as int),
        board@.at(x as int, y as int).is_some(),
        rook_x == 0 || rook_x == 7,
        all_from(board@, old(moves)@, x as int, y as int),
    ensures
        final(moves)@ == old(moves)@ + castle_move(board@, x as int, y as int, c, rook_x as int),
        all_from(board@, final(moves)@, x as int, y as int),
{
    let home: u32 = if c.is_white() { 7 } else { 0 };
    if y == home && x == 4 && board.castling_right(c, rook_x != 0) {
        match board.at(rook_x, y) {
            Some(q) => {
                if q.class == PieceType::Rook && q.color == c {
                    let (lo, hi) = sort2(x, rook_x);
                    if !do_pieces_exist_x1x2(board, y, lo + 1, hi - 1) {
                        let tx: u32 = if rook_x > x { x + 2 } else { x - 2 };
                        moves.push(Move::from_coords((x, y), (tx, y)));
                    }
                }
            },
            None => {},
        }
    }
    assert(moves@ =~= old(moves)@ + castle_move(board@, x as int, y as int, c, rook_x as int));
}

/// Appends the four promoting moves from `from` to `to`.
fn push_promotions(from: (u32, u32), to: (u32, u32), c: PieceColor, moves: &mut Vec<Move>)
    ensures
        final(moves)@ == old(moves)@ + promotions(from.0 as int, from.1 as int, to.0 as int, to.1 as int, c),
{
    let ghost start = moves@;
    let ghost all = promotions(from.0 as int, from.1 as int, to.0 as int, to.1 as int, c);
    let mut k: usize = 0;
    while k < 4
        invariant
            k <= 4,
            all == promotions(from.0 as int, from.1 as int, to.0 as int, to.1 as int, c),
            moves@ == start + all.take(k as int),
        decreases 4 - k,
    {
        moves.push(Move { from, to, promotion: Some(Piece::new(promotion_kind_at(k), c)) });
        assert(all.take(k + 1) =~= all.take(k as int).push(all[k as int]));
        k = k + 1;
    }
    assert(all.take(4) =~= all);
}

/// Appends a pawn's move to `(tx, ty)`: four promoting moves on the last
/// rank, one plain move elsewhere.
fn push_pawn_move(board: &Board, x: u32, y: u32, tx: u32, ty: u32, c: PieceColor, moves: &mut Vec<Move>)
    requires
        in_bounds(x as int, y as int),
        in_bounds(tx as int, ty as int),
        board@.at(x as int, y as int).is_some(),
        all_from(board@, old(moves)@, x as int, y as int),
    ensures
        final(moves)@ == old(moves)@ + pawn_to(x as int, y as int, tx as int, ty as int, c),
        all_from(board@, final(moves)@, x as int, y as int),
{
    let last: u32 = if c.is_white() { 0 } else { 7 };
    if ty == last {
        push_promotions((x, y), (tx, ty), c, moves);
    } else {
        moves.push(Move::from_coords((x, y), (tx, ty)));
        assert(moves@ =~= old(moves)@ + pawn_to(x as int, y as int, tx as int, ty as int, c));
    }
}

/// Appends the diagonal capture of the pawn of color `c` on `(x, y)` toward
/// file offset `xoff`.
fn push_pawn_capture(board: &Board, x: u32, y: u32, c: PieceColor, xoff: i32, moves: &mut Vec<Move>)
    requires
        in_bounds(x as int, y as int),
        board@.at(x as int, y as int).is_some(),
        xoff == -1 || xoff == 1,
        all_from(board@, old(moves)@, x as int, y as int),
    ensures
        final(moves)@ == old(moves)@ + pawn_capture(board@, x as int, y as int, c, xoff as int),
        all_from(board@, final(moves)@, x as int, y as int),
{
    let ax = x as i32 + xoff;
    let ay = y as i32 + c.direction();
    if inbounds(ax, ay) {
        let open = match board.at(ax as u32, ay as u32) {
            Some(q) => q.color != c,
            None => match board.en_passant_square {
                Some((ex, ey)) => ex == ax as u32 && ey == ay as u32,
                None => false,
            },
        };
        if open {
            push_pawn_move(board, x, y, ax as u32, ay as u32, c, moves);
        }
    }
    assert(moves@ =~= old(moves)@ + pawn_capture(board@, x as int, y as int, c, xoff as int));
}

/// Appends the moves of the pawn of color `c` on `(x, y)`.
#[verifier::rlimit(30)]
fn push_pawn_moves(board: &Board, x: u32, y: u32, c: PieceColor, moves: &mut Vec<Move>)
    requires
        in_bounds(x as int, y as int),
        board@.at(x as int, y as int).is_some(),
        all_from(board@, old(moves)@, x as int, y as int),
    ensures
        final(moves)@ == old(moves)@ + pawn_moves(board@, x as int, y as int, c),
        all_from(board@, final(moves)@, x as int, y as int),
{
    let ghost v = board@;
    let ghost (xi, yi) = (x as int, y as int);
    let ghost d = c.direction_spec();
    let direction = c.direction();
    let by = y as i32 + direction;
    if inbounds(x as i32, by) && board.at(x, by as u32).is_none() {
        push_pawn_move(board, x, y, x, by as u32, c, moves);
    }
    let ghost after_single = moves@;
    let home: u32 = if c.is_white() { 6 } else { 1 };
    if y == home {
        let py = (y as i32 + 2 * direction) as u32;
        if board.at(x, py).is_none() && board.at(x, by as u32).is_none() {
            moves.push(Move::from_coords((x, y), (x, py)));
        }
    }
    let ghost after_double = moves@;
    assert(after_double =~= old(moves)@ + (if in_bounds(xi, yi + d) && v.at(xi, yi + d).is_none() {
        pawn_to(xi, yi, xi, yi + d, c)
    } else {
        Seq::empty()
    }) + (if yi == pawn_home_rank(c) && v.at(xi, yi + 2 * d).is_none() && v.at(xi, yi + d).is_none() {
        seq![plain_move(xi, yi, xi, yi + 2 * d)]
    } else {
        Seq::empty()
    }));
    push_pawn_capture(board, x, y, c, -1, moves);
    push_pawn_capture(board, x, y, c, 1, moves);
    assert(moves@ =~= old(moves)@ + pawn_moves(board@, x as int, y as int, c));
}

/// The pseudo-legal moves of the piece on `(x, y)`: every move its geometry
/// allows, captures of its own color excluded, its own king's safety ignored.
pub fn moves_for_piece(board: &Board, x: u32, y: u32) -> (r: Vec<Move>)
    requires
        in_bounds(x as int, y as int),
        board@.at(x as int, y as int).is_some(),
    ensures
        r@ == piece_moves(board@, x as int, y as int),
        all_from(board@, r@, x as int, y as int),
{
    reveal(piece_moves);
    let mut moves: Vec<Move> = Vec::new();
    let p = match board.at(x, y) {
        Some(p) => p,
        None => { return moves; },
    };
    assert(moves@ + piece_moves(board@, x as int, y as int) =~= piece_moves(board@, x as int, y as int));
    match p.class {
        PieceType::Knight => push_step_moves(board, x, y, p.color, true, &mut moves),
        PieceType::Rook => moves_for_sliding_piece(board, x, y, p.color, 0, 4, &mut moves),
        PieceType::Bishop => moves_for_sliding_piece(board, x, y, p.color, 4, 4, &mut moves),
        PieceType::Queen => moves_for_sliding_piece(board, x, y, p.color, 0, 8, &mut moves),
        PieceType::King => {
            push_step_moves(board, x, y, p.color, false, &mut moves);
            push_castle_move(board, x, y, p.color, 0, &mut moves);
            push_castle_move(board, x, y, p.color, 7, &mut moves);
        },
        PieceType::Pawn => push_pawn_moves(board, x, y, p.color, &mut moves),
    }
    assert(moves@ =~= piece_moves(board@, x as int, y as int));
    moves
}

/// Whether `ms[s .. s + 4]` are the four promoting moves of `mv`'s origin
/// and destination, knight first, and no other move of `ms` reaches that
/// destination.
pub open spec fn promotion_block(ms: Seq<Move>, s: int, mv: Move, c: PieceColor) -> bool {
    &&& 0 <= s
    &&& s + 4 <= ms.len()
    &&& forall|k: int|
        0 <= k < 4 ==> #[trigger] ms[s + k] == (Move {
            from: mv.from,
            to: mv.to,
            promotion: Some(Piece { class: promotion_kind(k), color: c }),
        })
    &&& forall|i: int| 0 <= i < ms.len() && (i < s || s + 4 <= i) ==> (#[trigger] ms[i]).to != mv.to
}

/// A pawn's moves onto the last rank come in fours: each lies in a block of
/// four consecutive moves with its origin and destination, promoting to a
/// knight, bishop, rook and queen of the pawn's color, and no other move of
/// the pawn reaches that square. No move onto the last rank is a plain one.
pub proof fn lemma_promotion_complete(v: BoardView, x: int, y: int, j: int)
    requires
        in_bounds(x, y),
        v.at(x, y) matches Some(p) && p.class == PieceType::Pawn,
        0 <= j < piece_moves(v, x, y).len(),
        piece_moves(v, x, y)[j].y2() == last_rank(v.at(x, y)->Some_0.color),
    ensures
        ({
            let ms = piece_moves(v, x, y);
            let c = v.at(x, y)->Some_0.color;
            exists|s: int| s <= j < s + 4 && #[trigger] promotion_block(ms, s, ms[j], c)
        }),
{
    reveal(piece_moves);
    let c = v.at(x, y)->Some_0.color;
    let d = c.direction_spec();
    let ms = piece_moves(v, x, y);
    let single = if in_bounds(x, y + d) && v.at(x, y + d).is_none() {
        pawn_to(x, y, x, y + d, c)
    } else {
        Seq::empty()
    };
    let double = if y == pawn_home_rank(c) && v.at(x, y + 2 * d).is_none() && v.at(x, y + d).is_none() {
        seq![plain_move(x, y, x, y + 2 * d)]
    } else {
        Seq::empty()
    };
    let left = pawn_capture(v, x, y, c, -1);
    let right = pawn_capture(v, x, y, c, 1);
    assert(ms == single + double + left + right);
    let (a, b, l) = (single.len(), double.len(), left.len());
    assert(forall|i: int| 0 <= i < a ==> ms[i] == single[i]);
    assert(forall|i: int| a <= i < a + b ==> ms[i] == double[i - a]);
    assert(forall|i: int| a + b <= i < a + b + l ==> ms[i] == left[i - a - b]);
    assert(forall|i: int| a + b + l <= i < ms.len() ==> ms[i] == right[i - a - b - l]);
    assert(forall|i: int| 0 <= i < a ==> (#[trigger] ms[i]).to == ((x as u32), ((y + d) as u32)));
    assert(forall|i: int| a <= i < a + b ==> (#[trigger] ms[i]).to == ((x as u32), ((y + 2 * d) as u32)));
    assert(forall|i: int| a + b <= i < a + b + l ==> (#[trigger] ms[i]).to == (((x - 1) as u32), ((y + d) as u32)));
    assert(forall|i: int| a + b + l <= i < ms.len() ==> (#[trigger] ms[i]).to == (((x + 1) as u32), ((y + d) as u32)));
    if j < a {
        let s: int = 0;
        assert(a == 4);
        assert(forall|k: int| 0 <= k < 4 ==> #[trigger] ms[s + k] == single[k]);
        assert(forall|i: int| 0 <= i < ms.len() && (i < s || s + 4 <= i) ==> (#[trigger] ms[i]).to != ms[j].to);
        assert(promotion_block(ms, s, ms[j], c));
    } else if j < a + b {
        assert(false);
    } else if j < a + b + l {
        assert(l == 4);
        let s = (a + b) as int;
        assert(forall|k: int| 0 <= k < 4 ==> #[trigger] ms[s + k] == left[k]);
        assert(forall|i: int| 0 <= i < ms.len() && (i < s || s + 4 <= i) ==> (#[trigger] ms[i]).to != ms[j].to);
        assert(promotion_block(ms, s, ms[j], c));
    } else {
        let s = (a + b + l) as int;
        assert(forall|k: int| 0 <= k < 4 ==> #[trigger] ms[s + k] == right[k]);
        assert(forall|i: int| 0 <= i < ms.len() && (i < s || s + 4 <= i) ==> (#[trigger] ms[i]).to != ms[j].to);
        assert(promotion_block(ms, s, ms[j], c));
    }
}

/// The pseudo-legal moves of color `c` over the first `k` squares, visited
/// file by file and, within a file, rank by rank.
pub open spec fn pseudo_upto(v: BoardView, c: PieceColor, k: int) -> Seq<Move>
    decreases k,
{
    if k <= 0 {
        Seq::empty()
    } else {
        let (x, y) = ((k - 1) / 8, (k - 1) % 8);
        pseudo_upto(v, c, k - 1) + if v.at(x, y) matches Some(q) && q.color == c {
            piece_moves(v, x, y)
        } else {
            Seq::empty()
        }
    }
}

/// Every move in `ms` starts from a piece and stays on the board.
pub open spec fn all_fit(v: BoardView, ms: Seq<Move>) -> bool {
    forall|j: int| 0 <= j < ms.len() ==> v.move_fits(#[trigger] ms[j])
}

/// The pseudo-legal moves of color `c`, in generation order.
pub(crate) fn pseudo_moves_for_player(board: &Board, c: PieceColor) -> (r: Vec<Move>)
    ensures
        r@ == pseudo_upto(board@, c, 64),
        all_fit(board@, r@),
{
    let mut moves: Vec<Move> = Vec::new();
    let mut s: u32 = 0;
    while s < 64
        invariant
            s <= 64,
            moves@ == pseudo_upto(board@, c, s as int),
            all_fit(board@, moves@),
        decreases 64 - s,
    {
        let x = s / 8;
        let y = s % 8;
        let ghost before = moves@;
        match board.at(x, y) {
            Some(p) => {
                if p.color == c {
                    let pm = moves_for_piece(board, x, y);
                    let mut j: usize = 0;
                    while j < pm.len()
                        invariant
                            j <= pm@.len(),
                            all_from(board@, pm@, x as int, y as int),
                            all_fit(board@, moves@),
                            moves@ == before + pm@.take(j as int),
                        decreases pm.len() - j,
                    {
                        moves.push(pm[j]);
                        assert(pm@.take(j + 1) =~= pm@.take(j as int).push(pm@[j as int]));
                        j = j + 1;
                    }
                    assert(pm@.take(pm@.len() as int) =~= pm@);
                }
            },
            None => {},
        }
        assert(moves@ =~= pseudo_upto(board@, c, s + 1));
        s = s + 1;
    }
    moves
}

} // verus!
