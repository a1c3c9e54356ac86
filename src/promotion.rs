//! Proofs that the legal-move filter keeps a pawn's four promotions
//! together: the promoted piece's kind does not change whether the mover's
//! king is left in check.

use vstd::prelude::*;
use crate::piece::{Piece, PieceColor, PieceType, promotion_kind};
use crate::board::{BoardView, Move, in_bounds, sq};
use crate::movegen::{
    castle_move, last_rank, pawn_capture, pawn_moves, pawn_to, piece_moves, pieces_between, plain_move, ray,
    slide_direction, slide_moves, step_moves, can_land,
};
use crate::legality::{attacked, first_king, in_check, square_moves};

verus! {

/// Whether two positions differ only in the kinds of some pieces of color
/// `c`, none of them a king.
pub open spec fn alike(w1: BoardView, w2: BoardView, c: PieceColor) -> bool {
    &&& w1.cells.len() == 64
    &&& w2.cells.len() == 64
    &&& w1.rights == w2.rights
    &&& w1.ep == w2.ep
    &&& forall|i: int|
        0 <= i < 64 ==> (#[trigger] w1.cells[i] == w2.cells[i] || (w1.cells[i] matches Some(a) && w2.cells[i] matches Some(
            b,
        ) && a.color == c && b.color == c && a.class != PieceType::King && b.class != PieceType::King))
}

proof fn lemma_alike_at(w1: BoardView, w2: BoardView, c: PieceColor, x: int, y: int)
    requires
        alike(w1, w2, c),
        in_bounds(x, y),
    ensures
        w1.at(x, y).is_some() == w2.at(x, y).is_some(),
        w1.at(x, y) is Some ==> w1.at(x, y)->Some_0.color == w2.at(x, y)->Some_0.color,
        w1.at(x, y) != w2.at(x, y) ==> w1.at(x, y)->Some_0.color == c,
{
    assert(w1.cells[sq(x, y)] == w2.cells[sq(x, y)] || true);
}

proof fn lemma_step_alike(w1: BoardView, w2: BoardView, c: PieceColor, x: int, y: int, e: PieceColor, knight: bool, k: int)
    requires
        alike(w1, w2, c),
        e != c,
    ensures
        step_moves(w1, x, y, e, knight, k) == step_moves(w2, x, y, e, knight, k),
    decreases k,
{
    if k > 0 {
        lemma_step_alike(w1, w2, c, x, y, e, knight, k - 1);
        let (dx, dy) = crate::movegen::step_offset(knight, k - 1);
        if in_bounds(x + dx, y + dy) {
            lemma_alike_at(w1, w2, c, x + dx, y + dy);
        }
        assert(can_land(w1, e, x + dx, y + dy) == can_land(w2, e, x + dx, y + dy));
    }
}

proof fn lemma_ray_alike(w1: BoardView, w2: BoardView, c: PieceColor, x: int, y: int, e: PieceColor, xt: int, yt: int, dx: int, dy: int, f: nat)
    requires
        alike(w1, w2, c),
        e != c,
    ensures
        ray(w1, x, y, e, xt, yt, dx, dy, f) == ray(w2, x, y, e, xt, yt, dx, dy, f),
    decreases f,
{
    if f > 0 && in_bounds(xt, yt) {
        lemma_alike_at(w1, w2, c, xt, yt);
        lemma_ray_alike(w1, w2, c, x, y, e, xt + dx, yt + dy, dx, dy, (f - 1) as nat);
    }
}

proof fn lemma_slide_alike(w1: BoardView, w2: BoardView, c: PieceColor, x: int, y: int, e: PieceColor, first: int, k: int)
    requires
        alike(w1, w2, c),
        e != c,
    ensures
        slide_moves(w1, x, y, e, first, k) == slide_moves(w2, x, y, e, first, k),
    decreases k,
{
    if k > 0 {
        lemma_slide_alike(w1, w2, c, x, y, e, first, k - 1);
        let (dx, dy) = slide_direction(first + k - 1);
        lemma_ray_alike(w1, w2, c, x, y, e, x + dx, y + dy, dx, dy, 8);
    }
}

proof fn lemma_castle_alike(w1: BoardView, w2: BoardView, c: PieceColor, x: int, y: int, e: PieceColor, rook_x: int)
    requires
        alike(w1, w2, c),
        e != c,
        rook_x == 0 || rook_x == 7,
    ensures
        castle_move(w1, x, y, e, rook_x) == castle_move(w2, x, y, e, rook_x),
{
    if y == crate::board::home_rank(e) && x == 4 {
        lemma_alike_at(w1, w2, c, rook_x, y);
        let lo = if x < rook_x { x } else { rook_x };
        let hi = if x < rook_x { rook_x } else { x };
        assert forall|xx: int| lo + 1 <= xx <= hi - 1 implies w1.at(xx, y).is_some() == w2.at(xx, y).is_some() by {
            lemma_alike_at(w1, w2, c, xx, y);
        }
        assert(pieces_between(w1, y, lo + 1, hi - 1) == pieces_between(w2, y, lo + 1, hi - 1));
    }
}

proof fn lemma_pawn_alike(w1: BoardView, w2: BoardView, c: PieceColor, x: int, y: int, e: PieceColor)
    requires
        alike(w1, w2, c),
        e != c,
        in_bounds(x, y),
    ensures
        pawn_moves(w1, x, y, e) == pawn_moves(w2, x, y, e),
{
    let d = e.direction_spec();
    if in_bounds(x, y + d) {
        lemma_alike_at(w1, w2, c, x, y + d);
    }
    if y == crate::movegen::pawn_home_rank(e) {
        lemma_alike_at(w1, w2, c, x, y + d);
        lemma_alike_at(w1, w2, c, x, y + 2 * d);
    }
    if in_bounds(x - 1, y + d) {
        lemma_alike_at(w1, w2, c, x - 1, y + d);
    }
    if in_bounds(x + 1, y + d) {
        lemma_alike_at(w1, w2, c, x + 1, y + d);
    }
    assert(pawn_capture(w1, x, y, e, -1) == pawn_capture(w2, x, y, e, -1));
    assert(pawn_capture(w1, x, y, e, 1) == pawn_capture(w2, x, y, e, 1));
}

/// The moves of a piece of the other color are the same in alike positions.
proof fn lemma_piece_moves_alike(w1: BoardView, w2: BoardView, c: PieceColor, x: int, y: int)
    requires
        alike(w1, w2, c),
        in_bounds(x, y),
        w1.at(x, y) matches Some(q) && q.color != c,
    ensures
        piece_moves(w1, x, y) == piece_moves(w2, x, y),
{
    reveal(piece_moves);
    lemma_alike_at(w1, w2, c, x, y);
    let e = w1.at(x, y)->Some_0.color;
    lemma_step_alike(w1, w2, c, x, y, e, true, 8);
    lemma_step_alike(w1, w2, c, x, y, e, false, 8);
    lemma_castle_alike(w1, w2, c, x, y, e, 0);
    lemma_castle_alike(w1, w2, c, x, y, e, 7);
    lemma_slide_alike(w1, w2, c, x, y, e, 0, 4);
    lemma_slide_alike(w1, w2, c, x, y, e, 4, 4);
    lemma_slide_alike(w1, w2, c, x, y, e, 0, 8);
    lemma_pawn_alike(w1, w2, c, x, y, e);
}

proof fn lemma_first_king_alike(w1: BoardView, w2: BoardView, c: PieceColor, i: int)
    requires
        alike(w1, w2, c),
        0 <= i,
    ensures
        first_king(w1, c, i) == first_king(w2, c, i),
    decreases 64 - i,
{
    if i < 64 {
        assert(w1.cells[i] == w2.cells[i] || true);
        lemma_first_king_alike(w1, w2, c, i + 1);
    }
}

/// Whether the king of color `c` is in check does not depend on the kinds
/// of `c`'s other pieces.
pub proof fn lemma_in_check_alike(w1: BoardView, w2: BoardView, c: PieceColor)
    requires
        alike(w1, w2, c),
    ensures
        in_check(w1, c) == in_check(w2, c),
{
    lemma_first_king_alike(w1, w2, c, 0);
    assert forall|i: int| 0 <= i < 64 && (w1.cells[i] matches Some(q) && q.color != c) implies w2.cells[i] == w1.cells[i]
        && square_moves(w1, i) == square_moves(w2, i) by {
        assert(sq(i % 8, i / 8) == i);
        lemma_piece_moves_alike(w1, w2, c, i % 8, i / 8);
    }
    assert forall|i: int| 0 <= i < 64 && (w2.cells[i] matches Some(q) && q.color != c) implies w2.cells[i] == w1.cells[i] by {
        assert(w1.cells[i] == w2.cells[i] || true);
    }
    if let Some(k) = first_king(w1, c, 0) {
        assert(attacked(w1, c, k) == attacked(w2, c, k));
    }
}

/// Every move of `ms` starts from `(x, y)`.
pub open spec fn starts_at(ms: Seq<Move>, x: int, y: int) -> bool {
    forall|j: int| 0 <= j < ms.len() ==> (#[trigger] ms[j]).from == (x as u32, y as u32)
}

proof fn lemma_concat_starts(a: Seq<Move>, b: Seq<Move>, x: int, y: int)
    requires
        starts_at(a, x, y),
        starts_at(b, x, y),
    ensures
        starts_at(a + b, x, y),
{
    assert forall|j: int| 0 <= j < (a + b).len() implies (#[trigger] (a + b)[j]).from == (x as u32, y as u32) by {
        if j < a.len() {
            assert((a + b)[j] == a[j]);
        } else {
            assert((a + b)[j] == b[j - a.len()]);
        }
    }
}

proof fn lemma_step_starts(v: BoardView, x: int, y: int, e: PieceColor, knight: bool, k: int)
    ensures
        starts_at(step_moves(v, x, y, e, knight, k), x, y),
    decreases k,
{
    if k > 0 {
        lemma_step_starts(v, x, y, e, knight, k - 1);
    }
}

proof fn lemma_ray_starts(v: BoardView, x: int, y: int, e: PieceColor, xt: int, yt: int, dx: int, dy: int, f: nat)
    ensures
        starts_at(ray(v, x, y, e, xt, yt, dx, dy, f), x, y),
    decreases f,
{
    if f > 0 && in_bounds(xt, yt) {
        lemma_ray_starts(v, x, y, e, xt + dx, yt + dy, dx, dy, (f - 1) as nat);
        let rest = ray(v, x, y, e, xt + dx, yt + dy, dx, dy, (f - 1) as nat);
        lemma_concat_starts(seq![plain_move(x, y, xt, yt)], rest, x, y);
    }
}

proof fn lemma_slide_starts(v: BoardView, x: int, y: int, e: PieceColor, first: int, k: int)
    ensures
        starts_at(slide_moves(v, x, y, e, first, k), x, y),
    decreases k,
{
    if k > 0 {
        lemma_slide_starts(v, x, y, e, first, k - 1);
        let (dx, dy) = slide_direction(first + k - 1);
        lemma_ray_starts(v, x, y, e, x + dx, y + dy, dx, dy, 8);
        lemma_concat_starts(slide_moves(v, x, y, e, first, k - 1), ray(v, x, y, e, x + dx, y + dy, dx, dy, 8), x, y);
    }
}

/// Every move the generator makes for the piece on `(x, y)` starts there.
pub proof fn lemma_piece_moves_start(v: BoardView, x: int, y: int)
    ensures
        starts_at(piece_moves(v, x, y), x, y),
{
    reveal(piece_moves);
    if let Some(p) = v.at(x, y) {
        let e = p.color;
        let d = e.direction_spec();
        lemma_step_starts(v, x, y, e, true, 8);
        lemma_step_starts(v, x, y, e, false, 8);
        lemma_slide_starts(v, x, y, e, 0, 4);
        lemma_slide_starts(v, x, y, e, 4, 4);
        lemma_slide_starts(v, x, y, e, 0, 8);
        let steps = step_moves(v, x, y, e, false, 8);
        lemma_concat_starts(steps, castle_move(v, x, y, e, 0), x, y);
        lemma_concat_starts(steps + castle_move(v, x, y, e, 0), castle_move(v, x, y, e, 7), x, y);
        let single = if in_bounds(x, y + d) && v.at(x, y + d).is_none() {
            pawn_to(x, y, x, y + d, e)
        } else {
            Seq::empty()
        };
        let double = if y == crate::movegen::pawn_home_rank(e) && v.at(x, y + 2 * d).is_none() && v.at(x, y + d).is_none() {
            seq![plain_move(x, y, x, y + 2 * d)]
        } else {
            Seq::empty()
        };
        let left = pawn_capture(v, x, y, e, -1);
        let right = pawn_capture(v, x, y, e, 1);
        lemma_concat_starts(single, double, x, y);
        lemma_concat_starts(single + double, left, x, y);
        lemma_concat_starts(single + double + left, right, x, y);
        assert(pawn_moves(v, x, y, e) == single + double + left + right);
    }
}

/// A move of the player's list comes from a square holding a piece of that
/// color, and lies among that piece's generated moves.
proof fn lemma_pseudo_source(v: BoardView, c: PieceColor, k: int, j: int)
    requires
        0 <= k <= 64,
        0 <= j < crate::movegen::pseudo_upto(v, c, k).len(),
    ensures
        ({
            let mv = crate::movegen::pseudo_upto(v, c, k)[j];
            &&& in_bounds(mv.x1(), mv.y1())
            &&& v.at(mv.x1(), mv.y1()) matches Some(q) && q.color == c
            &&& piece_moves(v, mv.x1(), mv.y1()).contains(mv)
        }),
    decreases k,
{
    let prev = crate::movegen::pseudo_upto(v, c, k - 1);
    let (x, y) = ((k - 1) / 8, (k - 1) % 8);
    let ms = crate::movegen::pseudo_upto(v, c, k);
    if j < prev.len() {
        assert(ms[j] == prev[j]);
        lemma_pseudo_source(v, c, k - 1, j);
    } else {
        let pm = piece_moves(v, x, y);
        assert(v.at(x, y) matches Some(q) && q.color == c);
        assert(ms[j] == pm[j - prev.len()]);
        lemma_piece_moves_start(v, x, y);
        assert(pm[j - prev.len()].from == (x as u32, y as u32));
    }
}

/// The generated moves of a piece of color `c` are in the player's list.
proof fn lemma_pseudo_contains(v: BoardView, c: PieceColor, k: int, x: int, y: int, mv: Move)
    requires
        0 <= 8 * x + y < k <= 64,
        0 <= y < 8,
        v.at(x, y) matches Some(q) && q.color == c,
        piece_moves(v, x, y).contains(mv),
    ensures
        crate::movegen::pseudo_upto(v, c, k).contains(mv),
    decreases k,
{
    let prev = crate::movegen::pseudo_upto(v, c, k - 1);
    let ms = crate::movegen::pseudo_upto(v, c, k);
    if 8 * x + y < k - 1 {
        lemma_pseudo_contains(v, c, k - 1, x, y, mv);
        let j = choose|j: int| 0 <= j < prev.len() && prev[j] == mv;
        assert(ms[j] == mv);
    } else {
        assert((k - 1) / 8 == x && (k - 1) % 8 == y);
        let pm = piece_moves(v, x, y);
        let j = choose|j: int| 0 <= j < pm.len() && pm[j] == mv;
        assert(ms[prev.len() + j] == mv);
    }
}

/// A move legal for `c` that is in `ms` survives the filter.
proof fn lemma_keep_contains(v: BoardView, c: PieceColor, ms: Seq<Move>, mv: Move)
    requires
        ms.contains(mv),
        crate::legality::legal_for(v, c, mv),
    ensures
        crate::legality::keep_legal(v, c, ms).contains(mv),
    decreases ms.len(),
{
    let rest = crate::legality::keep_legal(v, c, ms.drop_last());
    if ms.last() == mv {
        assert(rest.push(mv)[rest.len() as int] == mv);
    } else {
        let j = choose|j: int| 0 <= j < ms.len() && ms[j] == mv;
        assert(ms.drop_last()[j] == mv);
        lemma_keep_contains(v, c, ms.drop_last(), mv);
        let i = choose|i: int| 0 <= i < rest.len() && rest[i] == mv;
        if crate::legality::legal_for(v, c, ms.last()) {
            assert(rest.push(ms.last())[i] == mv);
        }
    }
}

/// Every move the filter keeps was in its input.
proof fn lemma_keep_subset(v: BoardView, c: PieceColor, ms: Seq<Move>, j: int)
    requires
        0 <= j < crate::legality::keep_legal(v, c, ms).len(),
    ensures
        ms.contains(crate::legality::keep_legal(v, c, ms)[j]),
    decreases ms.len(),
{
    let rest = crate::legality::keep_legal(v, c, ms.drop_last());
    if j < rest.len() {
        lemma_keep_subset(v, c, ms.drop_last(), j);
        let mv = rest[j];
        let i = choose|i: int| 0 <= i < ms.drop_last().len() && ms.drop_last()[i] == mv;
        assert(ms[i] == mv);
        if crate::legality::legal_for(v, c, ms.last()) {
            assert(rest.push(ms.last())[j] == mv);
        }
    } else {
        assert(ms[ms.len() - 1] == ms.last());
    }
}

/// The legal moves of color `c` treat promotion as a whole: a pawn's move
/// onto the last rank always names a promotion, and a promoting move is kept
/// together with the other three promotions of the same pawn move, one for
/// each of knight, bishop, rook and queen of color `c`.
pub proof fn lemma_player_promotions(v: BoardView, c: PieceColor, j: int, k: int)
    requires
        v.shaped(),
        0 <= j < crate::legality::player_moves(v, c).len(),
        0 <= k < 4,
    ensures
        ({
            let ms = crate::legality::player_moves(v, c);
            let mv = ms[j];
            &&& (v.at(mv.x1(), mv.y1()) matches Some(p) && p.class == PieceType::Pawn && mv.y2() == last_rank(c))
                ==> mv.promotion is Some
            &&& mv.promotion is Some ==> ms.contains(
                Move { from: mv.from, to: mv.to, promotion: Some(Piece { class: promotion_kind(k), color: c }) },
            )
        }),
{
    let pseudo = crate::movegen::pseudo_upto(v, c, 64);
    let ms = crate::legality::player_moves(v, c);
    let mv = ms[j];
    crate::legality::lemma_keep_legal(v, c, pseudo);
    assert(crate::legality::legal_for(v, c, mv));
    lemma_keep_subset(v, c, pseudo, j);
    let i = choose|i: int| 0 <= i < pseudo.len() && pseudo[i] == mv;
    lemma_pseudo_source(v, c, 64, i);
    let (x, y) = (mv.x1(), mv.y1());
    if mv.promotion is Some {
        let pm = piece_moves(v, x, y);
        let idx = choose|idx: int| 0 <= idx < pm.len() && pm[idx] == mv;
        crate::movegen::lemma_promotion_complete(v, x, y, idx);
        let s = choose|s: int| s <= idx < s + 4 && #[trigger] crate::movegen::promotion_block(pm, s, pm[idx], c);
        let mk = pm[s + k];
        assert(mk == Move { from: mv.from, to: mv.to, promotion: Some(Piece { class: promotion_kind(k), color: c }) });
        assert(pm.contains(mk));
        lemma_pseudo_contains(v, c, 64, x, y, mk);
        crate::agreement::lemma_generated_moves_legal(v, x, y);
        assert(crate::legality::move_legal(v, mk));
        reveal(BoardView::apply);
        let w1 = v.apply(mv);
        let w2 = v.apply(mk);
        assert(alike(w1, w2, c));
        lemma_in_check_alike(w1, w2, c);
        lemma_keep_contains(v, c, pseudo, mk);
    }
}

} // verus!
