//! Depth-limited minimax search with alpha-beta pruning. White maximizes,
//! Black minimizes.

use vstd::prelude::*;
use crate::piece::PieceColor;
use crate::board::{Board, BoardView, Move};
use crate::legality::player_moves;
use crate::movegen::all_fit;
use crate::eval::{evaluation, mate_score};

verus! {

/// Whether score `a` is strictly better than `b` for color `c`.
pub open spec fn better(c: PieceColor, a: int, b: int) -> bool {
    if c == PieceColor::White { a > b } else { a < b }
}

/// The better of `a` and `b` for color `c`; `b` on a tie.
pub open spec fn pick(c: PieceColor, a: int, b: int) -> int {
    if better(c, a, b) { a } else { b }
}

/// The value of a position searched `d` plies deep with every branch
/// explored: the static score at depth 0, the mate score for a side without
/// legal moves, else the best value for `c` over its legal moves.
pub open spec fn minimax_value(v: BoardView, d: nat, c: PieceColor) -> int
    decreases d, 1int, 0int,
{
    if d == 0 {
        evaluation(v, c)
    } else {
        best_upto(v, d, c, player_moves(v, c).len() as int)
    }
}

/// The best value for `c` over its first `i` legal moves, each searched
/// `d - 1` plies deeper: the first move's value, improved by the later ones.
/// Without moves it is the mate score.
pub open spec fn best_upto(v: BoardView, d: nat, c: PieceColor, i: int) -> int
    decreases d, 0int, i,
{
    if d == 0 || i <= 0 {
        mate_score(c)
    } else if i == 1 {
        minimax_value(v.apply(player_moves(v, c)[0]), (d - 1) as nat, c.opposite())
    } else {
        pick(
            c,
            minimax_value(v.apply(player_moves(v, c)[i - 1]), (d - 1) as nat, c.opposite()),
            best_upto(v, d, c, i - 1),
        )
    }
}

/// The value of the position after the `j`th legal move of `c`.
pub open spec fn child_value(v: BoardView, d: nat, c: PieceColor, j: int) -> int {
    minimax_value(v.apply(player_moves(v, c)[j]), (d - 1) as nat, c.opposite())
}

/// The move the full search keeps after its first `i` moves: the first
/// move, replaced by each later one that strictly improves the running
/// best; so the first move to reach the best value.
pub open spec fn chosen(v: BoardView, d: nat, c: PieceColor, i: int) -> Option<Move>
    decreases i,
{
    if d == 0 || i <= 0 {
        None
    } else if i == 1 {
        Some(player_moves(v, c)[0])
    } else if better(c, child_value(v, d, c, i - 1), best_upto(v, d, c, i - 1)) {
        Some(player_moves(v, c)[i - 1])
    } else {
        chosen(v, d, c, i - 1)
    }
}

/// The move the full search recommends: none at depth 0 or without legal
/// moves.
pub open spec fn best_move(v: BoardView, d: nat, c: PieceColor) -> Option<Move> {
    chosen(v, d, c, player_moves(v, c).len() as int)
}

/// What a search with window `(alpha, beta)` may return for a position of
/// value `value`: the value itself inside the window, a bound on it outside.
pub open spec fn fail_soft(r: int, value: int, alpha: int, beta: int) -> bool {
    &&& r <= alpha ==> value <= r
    &&& r >= beta ==> value >= r
    &&& alpha < r < beta ==> value == r
}

/// The largest absolute value a search can return.
pub open spec fn score_bound() -> int {
    1_283_200
}

/// The static score stays within the score bound.
pub proof fn lemma_evaluation_bound(v: BoardView, c: PieceColor)
    requires
        v.shaped(),
    ensures
        -score_bound() <= evaluation(v, c) <= score_bound(),
{
    crate::eval::lemma_material_bound(v, 64);
}

/// Search values stay within the score bound, inside the range of `i32`.
pub proof fn lemma_value_bound(v: BoardView, d: nat, c: PieceColor)
    requires
        v.shaped(),
    ensures
        -score_bound() <= minimax_value(v, d, c) <= score_bound(),
    decreases d, 1int, 0int,
{
    if d == 0 {
        lemma_evaluation_bound(v, c);
    } else {
        lemma_best_bound(v, d, c, player_moves(v, c).len() as int);
    }
}

/// The running best of a search stays within the score bound.
pub proof fn lemma_best_bound(v: BoardView, d: nat, c: PieceColor, i: int)
    requires
        v.shaped(),
        i <= player_moves(v, c).len(),
    ensures
        -score_bound() <= best_upto(v, d, c, i) <= score_bound(),
    decreases d, 0int, i,
{
    if d > 0 && i > 0 {
        if i > 1 {
            lemma_best_bound(v, d, c, i - 1);
        }
        let ms = player_moves(v, c);
        crate::legality::lemma_keep_legal(v, c, crate::movegen::pseudo_upto(v, c, 64));
        assert(crate::legality::legal_for(v, c, ms[i - 1]));
        crate::board::lemma_apply_shaped(v, ms[i - 1]);
        lemma_value_bound(v.apply(player_moves(v, c)[i - 1]), (d - 1) as nat, c.opposite());
    }
}

/// Once a move has been seen, the running best never gets worse.
pub proof fn lemma_best_monotone(v: BoardView, d: nat, c: PieceColor, i: int, k: int)
    requires
        1 <= i <= k,
    ensures
        !better(c, best_upto(v, d, c, i), best_upto(v, d, c, k)),
    decreases k,
{
    if k > i {
        lemma_best_monotone(v, d, c, i, k - 1);
    }
}

/// Once a move has been seen, the full search keeps one of the moves seen.
pub proof fn lemma_chosen_some(v: BoardView, d: nat, c: PieceColor, i: int)
    requires
        d > 0,
        1 <= i,
    ensures
        chosen(v, d, c, i) matches Some(m) && exists|k: int| 0 <= k < i && m == player_moves(v, c)[k],
    decreases i,
{
    if i > 1 {
        lemma_chosen_some(v, d, c, i - 1);
    }
}

/// Moves that do not change the running best do not change the kept move.
pub proof fn lemma_chosen_stable(v: BoardView, d: nat, c: PieceColor, j: int, i: int)
    requires
        1 <= j <= i,
        best_upto(v, d, c, j) == best_upto(v, d, c, i),
    ensures
        chosen(v, d, c, i) == chosen(v, d, c, j),
    decreases i,
{
    if i > j {
        lemma_best_monotone(v, d, c, j, i - 1);
        lemma_best_monotone(v, d, c, i - 1, i);
        lemma_chosen_stable(v, d, c, j, i - 1);
    }
}

/// The score of a position in which `color` is checkmated or has no move:
/// -1,000,000 for White, 1,000,000 for Black.
pub fn worst_eval(color: PieceColor) -> (r: i32)
    ensures
        r == mate_score(color),
{
    if color.is_white() { -1_000_000 } else { 1_000_000 }
}

/// Whether `best` lies beyond the bound that `c`'s opponent holds, so that
/// the opponent will avoid this position: at or above `beta` for White, at
/// or below `alpha` for Black.
pub open spec fn beyond(c: PieceColor, best: int, alpha: int, beta: int) -> bool {
    if c == PieceColor::White { best >= beta } else { best <= alpha }
}

/// The bound `c` raises as it finds better moves: `alpha` for White, `beta`
/// for Black.
pub open spec fn own_bound(c: PieceColor, alpha: int, beta: int) -> int {
    if c == PieceColor::White { alpha } else { beta }
}

/// Searches `board` `depth` plies deep with `color` to move, within the
/// window `(alpha, beta)`, and returns the recommended move and its score.
///
/// At depth 0 the result is no move and the static score; a side without
/// legal moves gets no move and the mate score. Otherwise White maximizes
/// and Black minimizes over the legal moves in generation order: the first
/// move is always searched and kept, a later one replaces it only if it
/// strictly improves on the best so far, and the remaining moves are skipped
/// once `beta <= alpha`. With a non-empty window the score is the full
/// minimax value whenever that value lies in `[alpha, beta]` (and the move
/// the one the full search keeps when the score lies strictly inside), and
/// bounds that value otherwise.
pub fn minimax(board: Board, depth: u32, color: PieceColor, alpha: i32, beta: i32) -> (r: (Option<Move>, i32))
    ensures
        -score_bound() <= r.1 <= score_bound(),
        depth == 0 ==> r == (None::<Move>, evaluation(board@, color) as i32),
        depth > 0 && player_moves(board@, color).len() == 0 ==> r == (None::<Move>, mate_score(color) as i32),
        depth > 0 && player_moves(board@, color).len() > 0 ==> (r.0 matches Some(m) && player_moves(board@, color).contains(m)),
        alpha < beta ==> fail_soft(r.1 as int, minimax_value(board@, depth as nat, color), alpha as int, beta as int),
        alpha < beta && alpha <= minimax_value(board@, depth as nat, color) <= beta ==> r.1 == minimax_value(board@, depth as nat, color),
        alpha < beta && alpha < r.1 < beta ==> r.0 == best_move(board@, depth as nat, color),
    decreases depth,
{
    if depth == 0 {
        proof {
            lemma_evaluation_bound(board@, color);
        }
        return (None, board.eval(color));
    }
    let moves = board.moves_for_player(color);
    let ghost v = board@;
    let ghost d = depth as nat;
    let ghost n = moves@.len() as int;
    let ghost own0 = own_bound(color, alpha as int, beta as int);
    let ghost w = alpha < beta;
    let mut best: i32 = worst_eval(color);
    let mut best_move: Option<Move> = None;
    let mut a: i32 = alpha;
    let mut b: i32 = beta;
    let ghost mut js: int = 0;
    let mut i: usize = 0;
    proof {
        crate::legality::lemma_keep_legal(v, color, crate::movegen::pseudo_upto(v, color, 64));
    }
    while i < moves.len() && (i == 0 || a < b)
        invariant
            v == board@,
            d == depth as nat,
            depth > 0,
            moves@ == player_moves(v, color),
            forall|j: int| 0 <= j < n ==> crate::legality::legal_for(v, color, #[trigger] moves@[j]),
            n == moves@.len(),
            0 <= i <= n,
            own0 == own_bound(color, alpha as int, beta as int),
            w == (alpha < beta),
            -score_bound() <= best <= score_bound(),
            color == PieceColor::White ==> b == beta && a == if i == 0 {
                alpha as int
            } else {
                pick(color, best as int, alpha as int)
            },
            color == PieceColor::Black ==> a == alpha && b == if i == 0 {
                beta as int
            } else {
                pick(color, best as int, beta as int)
            },
            i == 0 ==> best == mate_score(color) && best_move is None,
            i > 0 && w && !beyond(color, best as int, alpha as int, beta as int) ==> pick(color, best_upto(v, d, color, i as int), own0)
                == pick(color, best as int, own0) && !better(color, best_upto(v, d, color, i as int), best as int),
            i > 0 && w && beyond(color, best as int, alpha as int, beta as int) ==> !better(color, best as int, best_upto(v, d, color, i as int)),
            i > 0 ==> 0 <= js < i && best_move == Some(moves@[js]) && (w && alpha < best < beta ==> child_value(v, d, color, js)
                == best && chosen(v, d, color, js + 1) == best_move && best_upto(v, d, color, js + 1) == best),
        decreases n - i,
    {
        let mv = moves[i];
        proof {
            crate::legality::lemma_legal_applies(v, color, mv);
        }
        let child = board.apply_move(mv);
        let (_, val) = minimax(child, depth - 1, color.opposite(), a, b);
        proof {
            if i > 0 {
                lemma_best_monotone(v, d, color, i as int, i as int);
            }
        }
        let improves = i == 0 || if color.is_white() { val > best } else { val < best };
        if improves {
            best = val;
            best_move = Some(mv);
            proof {
                js = i as int;
            }
        }
        if color.is_white() {
            if best > a {
                a = best;
            }
        } else {
            if best < b {
                b = best;
            }
        }
        i = i + 1;
    }
    proof {
        if n > 0 {
            lemma_best_monotone(v, d, color, i as int, n);
            if w && !beyond(color, best as int, alpha as int, beta as int) {
                assert(i == n);
            }
            if w && alpha < best < beta {
                lemma_chosen_stable(v, d, color, js + 1, n);
            }
            assert(moves@[js] == best_move->Some_0);
        }
    }
    (best_move, best)
}

/// Searches `board` `depth` plies deep with `color` to move over the full
/// window. The score is exactly the value of the unpruned minimax search,
/// and the move the one that search recommends: pruning changes only the
/// work done. A side with legal moves always gets one, unless `depth` is 0.
pub fn search(board: Board, depth: u32, color: PieceColor) -> (r: (Option<Move>, i32))
    ensures
        r.1 == minimax_value(board@, depth as nat, color),
        r.0 == best_move(board@, depth as nat, color),
        depth > 0 && player_moves(board@, color).len() > 0 ==> (r.0 matches Some(m) && player_moves(board@, color).contains(m)),
{
    proof {
        lemma_value_bound(board@, depth as nat, color);
    }
    minimax(board, depth, color, i32::MIN, i32::MAX)
}

} // verus!
