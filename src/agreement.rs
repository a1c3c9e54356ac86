//! Proofs that the legality oracle and the move generator agree: a move
//! obeys `is_move_legal` exactly when the generator makes it.

use vstd::prelude::*;
use crate::piece::{Piece, PieceColor, PieceType, is_promotion_kind};
use crate::board::{BoardView, Move, in_bounds};
use crate::movegen::{
    castle_move, pawn_capture, pawn_moves, pawn_to, piece_moves, plain_move, promotions, ray, slide_direction,
    slide_moves, step_moves, step_offset,
};
use crate::legality::{abs, clear_from, move_legal, path_clear, pawn_legal, promotion_ok, sign};

verus! {

/// Whether walking from `(ax, ay)` by `(dx, dy)` reaches `(tx, ty)` in
/// fewer than `fuel` steps.
pub open spec fn reaches(ax: int, ay: int, tx: int, ty: int, dx: int, dy: int, fuel: nat) -> bool
    decreases fuel,
{
    fuel > 0 && ((ax == tx && ay == ty) || reaches(ax + dx, ay + dy, tx, ty, dx, dy, (fuel - 1) as nat))
}

/// Whether `(tx, ty)` lies on the ray from `(x, y)` in direction `(dx, dy)`,
/// past `(x, y)` itself.
pub open spec fn on_ray(x: int, y: int, tx: int, ty: int, dx: int, dy: int) -> bool {
    &&& dx == 0 ==> tx == x
    &&& dy == 0 ==> ty == y
    &&& dx == 1 ==> tx > x
    &&& dx == -1 ==> tx < x
    &&& dy == 1 ==> ty > y
    &&& dy == -1 ==> ty < y
    &&& dx != 0 && dy != 0 ==> abs(tx - x) == abs(ty - y)
}

pub open spec fn is_direction(dx: int, dy: int) -> bool {
    -1 <= dx <= 1 && -1 <= dy <= 1 && (dx != 0 || dy != 0)
}

/// Stepping one square further along a clear walk keeps it clear.
proof fn lemma_clear_extend(v: BoardView, ax: int, ay: int, tx: int, ty: int, dx: int, dy: int, f: nat, g: nat)
    requires
        is_direction(dx, dy),
        clear_from(v, ax, ay, tx, ty, dx, dy, f),
        reaches(ax, ay, tx, ty, dx, dy, g),
        g < f,
        in_bounds(tx, ty),
        v.at(tx, ty).is_none(),
    ensures
        clear_from(v, ax, ay, tx + dx, ty + dy, dx, dy, f),
        reaches(ax, ay, tx + dx, ty + dy, dx, dy, g + 1),
    decreases g,
{
    if !(ax == tx && ay == ty) {
        lemma_clear_extend(v, ax + dx, ay + dy, tx, ty, dx, dy, (f - 1) as nat, (g - 1) as nat);
    } else {
        assert(clear_from(v, ax + dx, ay + dy, tx + dx, ty + dy, dx, dy, (f - 1) as nat));
        assert(reaches(ax + dx, ay + dy, tx + dx, ty + dy, dx, dy, g));
    }
}

/// Whether a piece `p` on `(x, y)` may slide in direction `(dx, dy)`.
pub open spec fn slides_along(p: Piece, dx: int, dy: int) -> bool {
    if dx == 0 || dy == 0 {
        p.class == PieceType::Rook || p.class == PieceType::Queen
    } else {
        p.class == PieceType::Bishop || p.class == PieceType::Queen
    }
}

/// Every move along a ray whose squares so far are empty obeys the oracle.
proof fn lemma_ray_legal(v: BoardView, x: int, y: int, p: Piece, xt: int, yt: int, dx: int, dy: int, f: nat)
    requires
        v.shaped(),
        in_bounds(x, y),
        v.at(x, y) == Some(p),
        is_direction(dx, dy),
        slides_along(p, dx, dy),
        f <= 8,
        on_ray(x, y, xt, yt, dx, dy),
        clear_from(v, x + dx, y + dy, xt, yt, dx, dy, 8),
        reaches(x + dx, y + dy, xt, yt, dx, dy, (9 - f) as nat),
    ensures
        forall|j: int| 0 <= j < ray(v, x, y, p.color, xt, yt, dx, dy, f).len() ==> move_legal(
            v,
            #[trigger] ray(v, x, y, p.color, xt, yt, dx, dy, f)[j],
        ),
    decreases f,
{
    let r = ray(v, x, y, p.color, xt, yt, dx, dy, f);
    if f > 0 && in_bounds(xt, yt) {
        let mv = crate::movegen::plain_move(x, y, xt, yt);
        assert(sign(xt - x) == dx && sign(yt - y) == dy);
        assert(path_clear(v, x, y, xt, yt));
        assert(mv.x1() == x && mv.y1() == y && mv.x2() == xt && mv.y2() == yt);
        match v.at(xt, yt) {
            Some(q) => {
                if q.color != p.color {
                    assert(move_legal(v, mv));
                    assert(r == seq![mv]);
                }
            },
            None => {
                assert(move_legal(v, mv));
                let rest = ray(v, x, y, p.color, xt + dx, yt + dy, dx, dy, (f - 1) as nat);
                assert(r == seq![mv] + rest);
                if f > 1 {
                    lemma_clear_extend(v, x + dx, y + dy, xt, yt, dx, dy, 8, (9 - f) as nat);
                    lemma_ray_legal(v, x, y, p, xt + dx, yt + dy, dx, dy, (f - 1) as nat);
                }
                assert forall|j: int| 0 <= j < r.len() implies move_legal(v, #[trigger] r[j]) by {
                    if j > 0 {
                        assert(r[j] == rest[j - 1]);
                    }
                }
            },
        }
    }
}

/// Every move of a sliding piece along its directions obeys the oracle.
proof fn lemma_slide_legal(v: BoardView, x: int, y: int, p: Piece, first: int, k: int)
    requires
        v.shaped(),
        in_bounds(x, y),
        v.at(x, y) == Some(p),
        0 <= first,
        first + k <= 8,
        forall|i: int| first <= i < first + k ==> slides_along(p, #[trigger] slide_direction(i).0, slide_direction(i).1),
    ensures
        forall|j: int| 0 <= j < slide_moves(v, x, y, p.color, first, k).len() ==> move_legal(
            v,
            #[trigger] slide_moves(v, x, y, p.color, first, k)[j],
        ),
    decreases k,
{
    if k > 0 {
        lemma_slide_legal(v, x, y, p, first, k - 1);
        let (dx, dy) = slide_direction(first + k - 1);
        assert(slides_along(p, slide_direction(first + k - 1).0, slide_direction(first + k - 1).1));
        lemma_ray_legal(v, x, y, p, x + dx, y + dy, dx, dy, 8);
        let prev = slide_moves(v, x, y, p.color, first, k - 1);
        let r = ray(v, x, y, p.color, x + dx, y + dy, dx, dy, 8);
        assert forall|j: int| 0 <= j < (prev + r).len() implies move_legal(v, #[trigger] (prev + r)[j]) by {
            if j >= prev.len() {
                assert((prev + r)[j] == r[j - prev.len()]);
            } else {
                assert((prev + r)[j] == prev[j]);
            }
        }
    }
}

/// Every single-step knight or king move obeys the oracle.
proof fn lemma_step_legal(v: BoardView, x: int, y: int, p: Piece, knight: bool, k: int)
    requires
        v.shaped(),
        in_bounds(x, y),
        v.at(x, y) == Some(p),
        k <= 8,
        p.class == (if knight { PieceType::Knight } else { PieceType::King }),
    ensures
        forall|j: int| 0 <= j < step_moves(v, x, y, p.color, knight, k).len() ==> move_legal(
            v,
            #[trigger] step_moves(v, x, y, p.color, knight, k)[j],
        ),
    decreases k,
{
    if k > 0 {
        lemma_step_legal(v, x, y, p, knight, k - 1);
        let (dx, dy) = step_offset(knight, k - 1);
        let mv = plain_move(x, y, x + dx, y + dy);
        let prev = step_moves(v, x, y, p.color, knight, k - 1);
        if crate::movegen::can_land(v, p.color, x + dx, y + dy) {
            assert(mv.x1() == x && mv.y1() == y && mv.x2() == x + dx && mv.y2() == y + dy);
            assert(move_legal(v, mv));
            assert forall|j: int| 0 <= j < prev.push(mv).len() implies move_legal(v, #[trigger] prev.push(mv)[j]) by {
                if j < prev.len() {
                    assert(prev.push(mv)[j] == prev[j]);
                }
            }
        }
    }
}

proof fn lemma_pawn_to_legal(v: BoardView, x: int, y: int, p: Piece, tx: int, ty: int)
    requires
        v.shaped(),
        in_bounds(x, y),
        in_bounds(tx, ty),
        v.at(x, y) == Some(p),
        p.class == PieceType::Pawn,
        ty - y == p.color.direction_spec(),
        tx == x ==> v.at(tx, ty).is_none(),
        tx != x ==> (tx - x == 1 || x - tx == 1) && match v.at(tx, ty) {
            Some(q) => q.color != p.color,
            None => v.ep == Some((tx as u32, ty as u32)),
        },
    ensures
        forall|j: int| 0 <= j < pawn_to(x, y, tx, ty, p.color).len() ==> move_legal(
            v,
            #[trigger] pawn_to(x, y, tx, ty, p.color)[j],
        ),
{
    let ms = pawn_to(x, y, tx, ty, p.color);
    assert forall|j: int| 0 <= j < ms.len() implies move_legal(v, #[trigger] ms[j]) by {
        let mv = ms[j];
        assert(mv.x1() == x && mv.y1() == y && mv.x2() == tx && mv.y2() == ty);
        if ty == crate::movegen::last_rank(p.color) {
            assert(mv == promotions(x, y, tx, ty, p.color)[j]);
            assert(is_promotion_kind(crate::piece::promotion_kind(j)));
            assert(promotion_ok(mv, p.color));
        }
        assert(pawn_legal(v, mv, p.color));
    }
}

/// Every pawn move the generator makes obeys the oracle.
proof fn lemma_pawn_legal(v: BoardView, x: int, y: int, p: Piece)
    requires
        v.shaped(),
        in_bounds(x, y),
        v.at(x, y) == Some(p),
        p.class == PieceType::Pawn,
    ensures
        forall|j: int| 0 <= j < pawn_moves(v, x, y, p.color).len() ==> move_legal(
            v,
            #[trigger] pawn_moves(v, x, y, p.color)[j],
        ),
{
    let c = p.color;
    let d = c.direction_spec();
    let single = if in_bounds(x, y + d) && v.at(x, y + d).is_none() {
        pawn_to(x, y, x, y + d, c)
    } else {
        Seq::empty()
    };
    let double = if y == crate::movegen::pawn_home_rank(c) && v.at(x, y + 2 * d).is_none() && v.at(x, y + d).is_none() {
        seq![plain_move(x, y, x, y + 2 * d)]
    } else {
        Seq::empty()
    };
    let left = pawn_capture(v, x, y, c, -1);
    let right = pawn_capture(v, x, y, c, 1);
    if in_bounds(x, y + d) && v.at(x, y + d).is_none() {
        lemma_pawn_to_legal(v, x, y, p, x, y + d);
    }
    if left.len() > 0 {
        lemma_pawn_to_legal(v, x, y, p, x - 1, y + d);
    }
    if right.len() > 0 {
        lemma_pawn_to_legal(v, x, y, p, x + 1, y + d);
    }
    if double.len() > 0 {
        let mv = plain_move(x, y, x, y + 2 * d);
        assert(mv.x1() == x && mv.y1() == y && mv.x2() == x && mv.y2() == y + 2 * d);
        assert(move_legal(v, mv));
    }
    let all = single + double + left + right;
    assert(pawn_moves(v, x, y, c) == all);
    assert forall|j: int| 0 <= j < all.len() implies move_legal(v, #[trigger] all[j]) by {
        let (a, b, l) = (single.len() as int, double.len() as int, left.len() as int);
        if j < a {
            assert(all[j] == single[j]);
        } else if j < a + b {
            assert(all[j] == double[j - a]);
        } else if j < a + b + l {
            assert(all[j] == left[j - a - b]);
        } else {
            assert(all[j] == right[j - a - b - l]);
        }
    }
}

/// The generator and the oracle agree one way: every pseudo-legal move
/// that the generator makes for a piece obeys `is_move_legal`.
pub proof fn lemma_generated_moves_legal(v: BoardView, x: int, y: int)
    requires
        v.shaped(),
        in_bounds(x, y),
        v.at(x, y).is_some(),
    ensures
        forall|j: int| 0 <= j < piece_moves(v, x, y).len() ==> move_legal(v, #[trigger] piece_moves(v, x, y)[j]),
{
    reveal(piece_moves);
    let p = v.at(x, y)->Some_0;
    let ms = piece_moves(v, x, y);
    match p.class {
        PieceType::Knight => lemma_step_legal(v, x, y, p, true, 8),
        PieceType::Rook => lemma_slide_legal(v, x, y, p, 0, 4),
        PieceType::Bishop => lemma_slide_legal(v, x, y, p, 4, 4),
        PieceType::Queen => lemma_slide_legal(v, x, y, p, 0, 8),
        PieceType::Pawn => lemma_pawn_legal(v, x, y, p),
        PieceType::King => {
            lemma_step_legal(v, x, y, p, false, 8);
            let steps = step_moves(v, x, y, p.color, false, 8);
            let left = castle_move(v, x, y, p.color, 0);
            let right = castle_move(v, x, y, p.color, 7);
            if left.len() > 0 {
                assert(left[0].x1() == x && left[0].x2() == x - 2 && left[0].y2() == y);
                assert(v.at(x - 2, y).is_none());
                assert(move_legal(v, left[0]));
            }
            if right.len() > 0 {
                assert(right[0].x1() == x && right[0].x2() == x + 2 && right[0].y2() == y);
                assert(v.at(x + 2, y).is_none());
                assert(move_legal(v, right[0]));
            }
            let all = steps + left + right;
            assert(ms == all);
            assert forall|j: int| 0 <= j < all.len() implies move_legal(v, #[trigger] all[j]) by {
                let (a, l) = (steps.len() as int, left.len() as int);
                if j < a {
                    assert(all[j] == steps[j]);
                } else if j < a + l {
                    assert(all[j] == left[j - a]);
                } else {
                    assert(all[j] == right[j - a - l]);
                }
            }
        },
    }
}

/// A walk that steps `n` times from `(ax, ay)` by `(dx, dy)` reaches
/// `(tx, ty)` within any larger fuel.
proof fn lemma_reaches_line(ax: int, ay: int, tx: int, ty: int, dx: int, dy: int, n: int, f: nat)
    requires
        is_direction(dx, dy),
        0 <= n < f,
        dx == 0 ==> tx == ax,
        dx == 1 ==> tx - ax == n,
        dx == -1 ==> ax - tx == n,
        dy == 0 ==> ty == ay,
        dy == 1 ==> ty - ay == n,
        dy == -1 ==> ay - ty == n,
    ensures
        reaches(ax, ay, tx, ty, dx, dy, f),
    decreases n,
{
    if n > 0 {
        lemma_reaches_line(ax + dx, ay + dy, tx, ty, dx, dy, n - 1, (f - 1) as nat);
    }
}

/// A ray holds every square it reaches over empty squares, unless a piece
/// of the mover's color stands there.
proof fn lemma_ray_contains(v: BoardView, x: int, y: int, c: PieceColor, ax: int, ay: int, tx: int, ty: int, dx: int, dy: int, f: nat)
    requires
        is_direction(dx, dy),
        clear_from(v, ax, ay, tx, ty, dx, dy, f),
        reaches(ax, ay, tx, ty, dx, dy, f),
        crate::movegen::can_land(v, c, tx, ty),
    ensures
        ray(v, x, y, c, ax, ay, dx, dy, f).contains(plain_move(x, y, tx, ty)),
    decreases f,
{
    let r = ray(v, x, y, c, ax, ay, dx, dy, f);
    if ax == tx && ay == ty {
        assert(r[0] == plain_move(x, y, tx, ty));
    } else {
        lemma_ray_contains(v, x, y, c, ax + dx, ay + dy, tx, ty, dx, dy, (f - 1) as nat);
        let rest = ray(v, x, y, c, ax + dx, ay + dy, dx, dy, (f - 1) as nat);
        assert(r == seq![plain_move(x, y, ax, ay)] + rest);
        let j = choose|j: int| 0 <= j < rest.len() && rest[j] == plain_move(x, y, tx, ty);
        assert(r[j + 1] == rest[j]);
    }
}

/// The moves along direction `i` are among a sliding piece's moves.
proof fn lemma_slide_contains(v: BoardView, x: int, y: int, c: PieceColor, first: int, k: int, i: int, mv: Move)
    requires
        first <= i < first + k,
        ray(v, x, y, c, x + slide_direction(i).0, y + slide_direction(i).1, slide_direction(i).0, slide_direction(i).1, 8).contains(mv),
    ensures
        slide_moves(v, x, y, c, first, k).contains(mv),
    decreases k,
{
    let (dx, dy) = slide_direction(first + k - 1);
    let prev = slide_moves(v, x, y, c, first, k - 1);
    let r = ray(v, x, y, c, x + dx, y + dy, dx, dy, 8);
    assert(slide_moves(v, x, y, c, first, k) == prev + r);
    if i == first + k - 1 {
        let j = choose|j: int| 0 <= j < r.len() && r[j] == mv;
        assert((prev + r)[prev.len() + j] == mv);
    } else {
        lemma_slide_contains(v, x, y, c, first, k - 1, i, mv);
        let j = choose|j: int| 0 <= j < prev.len() && prev[j] == mv;
        assert((prev + r)[j] == mv);
    }
}

/// A single step onto a square the piece may land on is among the knight's
/// (or king's) step moves.
proof fn lemma_step_contains(v: BoardView, x: int, y: int, c: PieceColor, knight: bool, k: int, i: int)
    requires
        0 <= i < k <= 8,
        crate::movegen::can_land(v, c, x + step_offset(knight, i).0, y + step_offset(knight, i).1),
    ensures
        step_moves(v, x, y, c, knight, k).contains(
            plain_move(x, y, x + step_offset(knight, i).0, y + step_offset(knight, i).1),
        ),
    decreases k,
{
    let mv = plain_move(x, y, x + step_offset(knight, i).0, y + step_offset(knight, i).1);
    let prev = step_moves(v, x, y, c, knight, k - 1);
    if i == k - 1 {
        assert(step_moves(v, x, y, c, knight, k) == prev.push(mv));
        assert(prev.push(mv)[prev.len() as int] == mv);
    } else {
        lemma_step_contains(v, x, y, c, knight, k - 1, i);
        let j = choose|j: int| 0 <= j < prev.len() && prev[j] == mv;
        let (dx, dy) = step_offset(knight, k - 1);
        let m2 = plain_move(x, y, x + dx, y + dy);
        if crate::movegen::can_land(v, c, x + dx, y + dy) {
            assert(prev.push(m2)[j] == mv);
        }
    }
}

proof fn lemma_contains_concat(a: Seq<Move>, b: Seq<Move>, mv: Move)
    requires
        a.contains(mv) || b.contains(mv),
    ensures
        (a + b).contains(mv),
{
    if a.contains(mv) {
        let j = choose|j: int| 0 <= j < a.len() && a[j] == mv;
        assert((a + b)[j] == mv);
    } else {
        let j = choose|j: int| 0 <= j < b.len() && b[j] == mv;
        assert((a + b)[a.len() + j] == mv);
    }
}

/// The index of a direction in the table of sliding directions.
pub open spec fn direction_index(dx: int, dy: int) -> int {
    if dx == -1 && dy == 0 {
        0
    } else if dx == 1 && dy == 0 {
        1
    } else if dx == 0 && dy == 1 {
        2
    } else if dx == 0 && dy == -1 {
        3
    } else if dx == -1 && dy == -1 {
        4
    } else if dx == -1 && dy == 1 {
        5
    } else if dx == 1 && dy == -1 {
        6
    } else {
        7
    }
}

/// Every legal move of a sliding piece is generated.
proof fn lemma_slide_generated(v: BoardView, mv: Move, p: Piece, first: int, k: int)
    requires
        v.shaped(),
        move_legal(v, mv),
        v.at(mv.x1(), mv.y1()) == Some(p),
        p.class == PieceType::Rook ==> first == 0 && k == 4,
        p.class == PieceType::Bishop ==> first == 4 && k == 4,
        p.class == PieceType::Queen ==> first == 0 && k == 8,
        p.class == PieceType::Rook || p.class == PieceType::Bishop || p.class == PieceType::Queen,
    ensures
        slide_moves(v, mv.x1(), mv.y1(), p.color, first, k).contains(mv),
{
    let (x, y, x2, y2) = (mv.x1(), mv.y1(), mv.x2(), mv.y2());
    let (sx, sy) = (sign(x2 - x), sign(y2 - y));
    let n = if abs(x2 - x) > abs(y2 - y) { abs(x2 - x) } else { abs(y2 - y) };
    let i = direction_index(sx, sy);
    assert(slide_direction(i) == (sx, sy));
    lemma_reaches_line(x + sx, y + sy, x2, y2, sx, sy, n - 1, 8);
    assert(path_clear(v, x, y, x2, y2));
    lemma_ray_contains(v, x, y, p.color, x + sx, y + sy, x2, y2, sx, sy, 8);
    assert(plain_move(x, y, x2, y2) == mv);
    lemma_slide_contains(v, x, y, p.color, first, k, i, mv);
}

/// Every legal knight or king step is generated.
proof fn lemma_step_generated(v: BoardView, mv: Move, p: Piece, knight: bool)
    requires
        v.shaped(),
        move_legal(v, mv),
        v.at(mv.x1(), mv.y1()) == Some(p),
        p.class == (if knight { PieceType::Knight } else { PieceType::King }),
        abs(mv.x1() - mv.x2()) <= 2,
        !knight ==> abs(mv.x1() - mv.x2()) <= 1,
    ensures
        step_moves(v, mv.x1(), mv.y1(), p.color, knight, 8).contains(mv),
{
    let (x, y, x2, y2) = (mv.x1(), mv.y1(), mv.x2(), mv.y2());
    let (dx, dy) = (x2 - x, y2 - y);
    let i = if knight {
        if dx == -2 && dy == 1 {
            0int
        } else if dx == -2 && dy == -1 {
            1
        } else if dx == 2 && dy == 1 {
            2
        } else if dx == 2 && dy == -1 {
            3
        } else if dx == 1 && dy == -2 {
            4
        } else if dx == -1 && dy == -2 {
            5
        } else if dx == 1 && dy == 2 {
            6
        } else {
            7
        }
    } else {
        if dx == -1 && dy == -1 {
            0int
        } else if dx == 0 && dy == -1 {
            1
        } else if dx == 1 && dy == -1 {
            2
        } else if dx == -1 && dy == 0 {
            3
        } else if dx == 1 && dy == 0 {
            4
        } else if dx == -1 && dy == 1 {
            5
        } else if dx == 0 && dy == 1 {
            6
        } else {
            7
        }
    };
    assert(step_offset(knight, i) == (dx, dy));
    lemma_step_contains(v, x, y, p.color, knight, 8, i);
    assert(plain_move(x, y, x2, y2) == mv);
}

/// A legal pawn move onto `(tx, ty)` is among the pawn's moves there.
proof fn lemma_pawn_to_contains(v: BoardView, mv: Move, c: PieceColor)
    requires
        in_bounds(mv.x1(), mv.y1()),
        in_bounds(mv.x2(), mv.y2()),
        promotion_ok(mv, c),
    ensures
        pawn_to(mv.x1(), mv.y1(), mv.x2(), mv.y2(), c).contains(mv),
{
    let (x, y, tx, ty) = (mv.x1(), mv.y1(), mv.x2(), mv.y2());
    let ms = pawn_to(x, y, tx, ty, c);
    if ty == crate::movegen::last_rank(c) {
        let q = mv.promotion->Some_0;
        let k = if q.class == PieceType::Knight {
            0int
        } else if q.class == PieceType::Bishop {
            1
        } else if q.class == PieceType::Rook {
            2
        } else {
            3
        };
        assert(ms[k] == mv);
    } else {
        assert(ms[0] == mv);
    }
}

/// Every legal pawn move is generated.
proof fn lemma_pawn_generated(v: BoardView, mv: Move, p: Piece)
    requires
        v.shaped(),
        move_legal(v, mv),
        v.at(mv.x1(), mv.y1()) == Some(p),
        p.class == PieceType::Pawn,
    ensures
        pawn_moves(v, mv.x1(), mv.y1(), p.color).contains(mv),
{
    let (x, y, x2, y2) = (mv.x1(), mv.y1(), mv.x2(), mv.y2());
    let c = p.color;
    let d = c.direction_spec();
    let single = if in_bounds(x, y + d) && v.at(x, y + d).is_none() {
        pawn_to(x, y, x, y + d, c)
    } else {
        Seq::empty()
    };
    let double = if y == crate::movegen::pawn_home_rank(c) && v.at(x, y + 2 * d).is_none() && v.at(x, y + d).is_none() {
        seq![plain_move(x, y, x, y + 2 * d)]
    } else {
        Seq::empty()
    };
    let left = pawn_capture(v, x, y, c, -1);
    let right = pawn_capture(v, x, y, c, 1);
    assert(pawn_moves(v, x, y, c) == single + double + left + right);
    lemma_pawn_to_contains(v, mv, c);
    if x2 == x - 1 {
        assert(left == pawn_to(x, y, x2, y2, c));
        lemma_contains_concat(single + double, left, mv);
        lemma_contains_concat(single + double + left, right, mv);
    } else if x2 == x + 1 {
        assert(right == pawn_to(x, y, x2, y2, c));
        lemma_contains_concat(single + double + left, right, mv);
    } else if y2 - y == d {
        assert(single == pawn_to(x, y, x2, y2, c));
        lemma_contains_concat(single, double, mv);
        lemma_contains_concat(single + double, left, mv);
        lemma_contains_concat(single + double + left, right, mv);
    } else {
        assert(double[0] == mv);
        lemma_contains_concat(single, double, mv);
        lemma_contains_concat(single + double, left, mv);
        lemma_contains_concat(single + double + left, right, mv);
    }
}

/// Every legal king move is generated.
proof fn lemma_king_generated(v: BoardView, mv: Move, p: Piece)
    requires
        v.shaped(),
        move_legal(v, mv),
        v.at(mv.x1(), mv.y1()) == Some(p),
        p.class == PieceType::King,
    ensures
        (step_moves(v, mv.x1(), mv.y1(), p.color, false, 8) + castle_move(v, mv.x1(), mv.y1(), p.color, 0)
            + castle_move(v, mv.x1(), mv.y1(), p.color, 7)).contains(mv),
{
    let (x, y, x2, y2) = (mv.x1(), mv.y1(), mv.x2(), mv.y2());
    let steps = step_moves(v, x, y, p.color, false, 8);
    let left = castle_move(v, x, y, p.color, 0);
    let right = castle_move(v, x, y, p.color, 7);
    if abs(x - x2) <= 1 {
        lemma_step_generated(v, mv, p, false);
        lemma_contains_concat(steps, left, mv);
        lemma_contains_concat(steps + left, right, mv);
    } else if x2 > x {
        assert(right[0] == mv);
        lemma_contains_concat(steps + left, right, mv);
    } else {
        assert(left[0] == mv);
        lemma_contains_concat(steps, left, mv);
        lemma_contains_concat(steps + left, right, mv);
    }
}

/// The oracle and the generator agree exactly: on a square holding a piece,
/// `is_move_legal` accepts a move if and only if the generator makes it for
/// that piece.
pub proof fn lemma_oracle_matches_generator(v: BoardView, mv: Move)
    requires
        v.shaped(),
        in_bounds(mv.x1(), mv.y1()),
        v.at(mv.x1(), mv.y1()).is_some(),
    ensures
        move_legal(v, mv) <==> piece_moves(v, mv.x1(), mv.y1()).contains(mv),
{
    let (x, y) = (mv.x1(), mv.y1());
    lemma_generated_moves_legal(v, x, y);
    if move_legal(v, mv) {
        reveal(piece_moves);
        let p = v.at(x, y)->Some_0;
        match p.class {
            PieceType::Knight => lemma_step_generated(v, mv, p, true),
            PieceType::Rook => lemma_slide_generated(v, mv, p, 0, 4),
            PieceType::Bishop => lemma_slide_generated(v, mv, p, 4, 4),
            PieceType::Queen => lemma_slide_generated(v, mv, p, 0, 8),
            PieceType::Pawn => lemma_pawn_generated(v, mv, p),
            PieceType::King => lemma_king_generated(v, mv, p),
        }
    }
}

} // verus!
