use chess_engine::board::Board;
use chess_engine::movegen::moves_for_piece;
use chess_engine::{
    inbounds, is_in_check, is_in_checkmate, is_move_legal, legal_destinations, minimax, new_game, search,
    to_coord, to_offset, worst_eval, Move, Piece, PieceColor, PieceType,
};

fn piece(class: PieceType, color: PieceColor) -> Option<Piece> {
    Some(Piece::new(class, color))
}

fn mv(from: (u32, u32), to: (u32, u32)) -> Move {
    Move::from_coords(from, to)
}

fn empty_board() -> Board {
    Board { board: [None; 64], castling_rights: [true; 4], en_passant_square: None }
}

fn destinations(board: &Board, x: u32, y: u32) -> Vec<(u32, u32)> {
    legal_destinations(board, x, y).iter().map(|m| m.to).collect()
}

/// 1. f3 e5 2. g4
fn before_fools_mate() -> Board {
    new_game()
        .apply_move(mv((5, 6), (5, 5)))
        .apply_move(mv((4, 1), (4, 3)))
        .apply_move(mv((6, 6), (6, 4)))
}

/// Kings on their home squares, White's rooks in both corners.
fn castling_position() -> Board {
    let mut b = empty_board();
    b.set_at(4, 7, piece(PieceType::King, PieceColor::White));
    b.set_at(0, 7, piece(PieceType::Rook, PieceColor::White));
    b.set_at(7, 7, piece(PieceType::Rook, PieceColor::White));
    b.set_at(4, 0, piece(PieceType::King, PieceColor::Black));
    b
}

#[test]
fn e_pawn_has_single_and_double_push() {
    let b = new_game();
    let mut d = destinations(&b, 4, 6);
    d.sort();
    assert_eq!(d, vec![(4, 4), (4, 5)]);
}

#[test]
fn fools_mate_queen_reaches_h4_and_mates() {
    let b = before_fools_mate();
    let queen_moves = legal_destinations(&b, 3, 0);
    let to_h4 = queen_moves.iter().find(|m| m.to == (7, 4)).copied();
    assert!(to_h4.is_some());
    let after = b.apply_move(to_h4.unwrap());
    assert!(is_in_check(&after, PieceColor::White));
    assert!(is_in_checkmate(&after, PieceColor::White));
    assert!(!is_in_checkmate(&after, PieceColor::Black));
    assert!(after.moves_for_player(PieceColor::White).is_empty());
}

#[test]
fn kingside_castling_offered_until_rook_captured() {
    let b = castling_position();
    assert!(destinations(&b, 4, 7).contains(&(6, 7)));
    assert!(destinations(&b, 4, 7).contains(&(2, 7)));
    let mut with_knight = b;
    with_knight.set_at(6, 5, piece(PieceType::Knight, PieceColor::Black));
    assert!(destinations(&with_knight, 4, 7).contains(&(6, 7)));
    let captured = with_knight.apply_move(mv((6, 5), (7, 7)));
    assert_eq!(captured.at(7, 7), piece(PieceType::Knight, PieceColor::Black));
    assert!(!destinations(&captured, 4, 7).contains(&(6, 7)));
    assert!(destinations(&captured, 4, 7).contains(&(2, 7)));
}

#[test]
fn castling_relocates_king_and_rook() {
    let b = castling_position();
    let after = b.apply_move(mv((4, 7), (6, 7)));
    assert_eq!(after.at(6, 7), piece(PieceType::King, PieceColor::White));
    assert_eq!(after.at(5, 7), piece(PieceType::Rook, PieceColor::White));
    assert_eq!(after.at(4, 7), None);
    assert_eq!(after.at(7, 7), None);
    assert_eq!(after.at(0, 7), piece(PieceType::Rook, PieceColor::White));
    assert!(!after.castling_right(PieceColor::White, false));
    assert!(!after.castling_right(PieceColor::White, true));
    assert!(after.castling_right(PieceColor::Black, true));
    let queenside = b.apply_move(mv((4, 7), (2, 7)));
    assert_eq!(queenside.at(2, 7), piece(PieceType::King, PieceColor::White));
    assert_eq!(queenside.at(3, 7), piece(PieceType::Rook, PieceColor::White));
    assert_eq!(queenside.at(0, 7), None);
}

#[test]
fn castling_right_lost_for_good() {
    let b = castling_position();
    let moved = b.apply_move(mv((7, 7), (7, 6)));
    assert!(!moved.castling_right(PieceColor::White, true));
    assert!(moved.castling_right(PieceColor::White, false));
    let back = moved.apply_move(mv((4, 0), (4, 1))).apply_move(mv((7, 6), (7, 7)));
    assert!(!back.castling_right(PieceColor::White, true));
    assert!(!destinations(&back, 4, 7).contains(&(6, 7)));
    let king_moved = b.apply_move(mv((4, 7), (4, 6)));
    assert!(!king_moved.castling_right(PieceColor::White, false));
    assert!(!king_moved.castling_right(PieceColor::White, true));
}

#[test]
fn castling_blocked_by_piece_between() {
    let mut b = castling_position();
    b.set_at(5, 7, piece(PieceType::Bishop, PieceColor::White));
    assert!(!destinations(&b, 4, 7).contains(&(6, 7)));
    assert!(!is_move_legal(&b, mv((4, 7), (6, 7))));
    assert!(is_move_legal(&b, mv((4, 7), (2, 7))));
}

fn en_passant_position() -> Board {
    let mut b = empty_board();
    b.set_at(4, 7, piece(PieceType::King, PieceColor::White));
    b.set_at(4, 0, piece(PieceType::King, PieceColor::Black));
    b.set_at(4, 3, piece(PieceType::Pawn, PieceColor::White));
    b.set_at(3, 1, piece(PieceType::Pawn, PieceColor::Black));
    b.set_at(0, 6, piece(PieceType::Pawn, PieceColor::White));
    b.set_at(7, 1, piece(PieceType::Pawn, PieceColor::Black));
    b
}

#[test]
fn en_passant_right_after_double_push() {
    let b = en_passant_position().apply_move(mv((3, 1), (3, 3)));
    assert_eq!(b.en_passant_square, Some((3, 2)));
    assert!(destinations(&b, 4, 3).contains(&(3, 2)));
    assert!(is_move_legal(&b, mv((4, 3), (3, 2))));
    let after = b.apply_move(mv((4, 3), (3, 2)));
    assert_eq!(after.at(3, 2), piece(PieceType::Pawn, PieceColor::White));
    assert_eq!(after.at(3, 3), None);
    assert_eq!(after.at(4, 3), None);
    assert_eq!(after.en_passant_square, None);
}

#[test]
fn en_passant_gone_after_another_move() {
    let b = en_passant_position()
        .apply_move(mv((3, 1), (3, 3)))
        .apply_move(mv((0, 6), (0, 5)))
        .apply_move(mv((7, 1), (7, 2)));
    assert_eq!(b.en_passant_square, None);
    assert!(!destinations(&b, 4, 3).contains(&(3, 2)));
    assert!(!is_move_legal(&b, mv((4, 3), (3, 2))));
}

#[test]
fn single_push_sets_no_en_passant() {
    let b = en_passant_position().apply_move(mv((3, 1), (3, 2)));
    assert_eq!(b.en_passant_square, None);
}

#[test]
fn promotion_yields_four_moves() {
    let mut b = empty_board();
    b.set_at(0, 1, piece(PieceType::Pawn, PieceColor::White));
    b.set_at(1, 0, piece(PieceType::Rook, PieceColor::Black));
    let ms = moves_for_piece(&b, 0, 1);
    assert_eq!(ms.len(), 8);
    for m in ms.iter() {
        assert_eq!(m.to.1, 0);
        assert_eq!(m.promotion.map(|p| p.color), Some(PieceColor::White));
    }
    let kinds: Vec<PieceType> = ms.iter().filter(|m| m.to == (0, 0)).map(|m| m.promotion.unwrap().class).collect();
    assert_eq!(kinds, vec![PieceType::Knight, PieceType::Bishop, PieceType::Rook, PieceType::Queen]);
    let captures = ms.iter().filter(|m| m.to == (1, 0)).count();
    assert_eq!(captures, 4);
}

#[test]
fn promotion_places_chosen_piece() {
    let mut b = empty_board();
    b.set_at(0, 1, piece(PieceType::Pawn, PieceColor::White));
    let queen = Move { from: (0, 1), to: (0, 0), promotion: piece(PieceType::Queen, PieceColor::White) };
    assert!(is_move_legal(&b, queen));
    assert!(!is_move_legal(&b, mv((0, 1), (0, 0))));
    let wrong_color = Move { from: (0, 1), to: (0, 0), promotion: piece(PieceType::Queen, PieceColor::Black) };
    assert!(!is_move_legal(&b, wrong_color));
    let king = Move { from: (0, 1), to: (0, 0), promotion: piece(PieceType::King, PieceColor::White) };
    assert!(!is_move_legal(&b, king));
    let after = b.apply_move(queen);
    assert_eq!(after.at(0, 0), piece(PieceType::Queen, PieceColor::White));
    assert_eq!(after.at(0, 1), None);
}

#[test]
fn initial_position_has_twenty_moves() {
    let b = new_game();
    assert_eq!(b.moves_for_player(PieceColor::White).len(), 20);
    assert_eq!(b.moves_for_player(PieceColor::Black).len(), 20);
    assert!(!is_in_check(&b, PieceColor::White));
    assert!(!is_in_checkmate(&b, PieceColor::White));
}

#[test]
fn initial_position_layout() {
    let b = Board::new();
    assert_eq!(b.at(4, 7), piece(PieceType::King, PieceColor::White));
    assert_eq!(b.at(3, 0), piece(PieceType::Queen, PieceColor::Black));
    assert_eq!(b.get(0), piece(PieceType::Rook, PieceColor::Black));
    assert_eq!(b.get(57), piece(PieceType::Knight, PieceColor::White));
    assert_eq!(b.get(12), piece(PieceType::Pawn, PieceColor::Black));
    assert_eq!(b.get(35), None);
    assert_eq!(b.en_passant_square, None);
    assert_eq!(b.castling_rights, [true; 4]);
}

#[test]
fn opening_fixture() {
    let b = Board::after_e4_d5();
    assert_eq!(b.at(4, 4), piece(PieceType::Pawn, PieceColor::White));
    assert_eq!(b.at(3, 3), piece(PieceType::Pawn, PieceColor::Black));
    assert_eq!(b.at(4, 6), None);
    assert_eq!(b.at(3, 1), None);
    assert!(destinations(&b, 4, 4).contains(&(3, 3)));
}

#[test]
fn square_coordinates() {
    assert_eq!(to_offset(3, 2), 19);
    assert_eq!(to_offset(7, 7), 63);
    assert_eq!(to_coord(19), (3, 2));
    assert_eq!(to_coord(63), (7, 7));
    for i in 0..64u32 {
        let (x, y) = to_coord(i);
        assert_eq!(to_offset(x as i32, y as i32), i as i32);
    }
    assert!(inbounds(0, 7));
    assert!(!inbounds(8, 0));
    assert!(!inbounds(0, -1));
}

#[test]
fn color_and_piece_helpers() {
    assert_eq!(PieceColor::White.opposite(), PieceColor::Black);
    assert_eq!(PieceColor::Black.opposite(), PieceColor::White);
    assert_eq!(!PieceColor::White, PieceColor::Black);
    assert_eq!(!PieceColor::Black, PieceColor::White);
    assert_eq!(PieceColor::White.direction(), -1);
    assert_eq!(PieceColor::Black.direction(), 1);
    assert!(PieceColor::White.is_white() && !PieceColor::White.is_black());
    assert!(PieceColor::Black.is_black() && !PieceColor::Black.is_white());
    let p = Piece::new(PieceType::Knight, PieceColor::Black);
    assert!(p.is_knight());
    assert!(!p.is_pawn() && !p.is_bishop() && !p.is_rook() && !p.is_queen() && !p.is_king());
    assert!(Piece::new(PieceType::King, PieceColor::White).is_king());
}

#[test]
fn move_legality_rejections() {
    let b = new_game();
    assert!(!is_move_legal(&b, mv((4, 6), (4, 6))));
    assert!(!is_move_legal(&b, mv((4, 4), (4, 3))));
    assert!(!is_move_legal(&b, mv((4, 6), (4, 8))));
    assert!(!is_move_legal(&b, mv((0, 7), (0, 6))));
    assert!(!is_move_legal(&b, mv((0, 7), (0, 5))));
    assert!(!is_move_legal(&b, mv((4, 6), (4, 3))));
    let knight_promo = Move { from: (1, 7), to: (2, 5), promotion: piece(PieceType::Queen, PieceColor::White) };
    assert!(!is_move_legal(&b, knight_promo));
    assert!(is_move_legal(&b, mv((1, 7), (2, 5))));
    assert!(is_move_legal(&b, mv((4, 6), (4, 4))));
    assert!(!is_move_legal(&b, mv((2, 7), (4, 5))));
}

#[test]
fn sliding_moves_stop_at_pieces() {
    let mut b = empty_board();
    b.set_at(3, 3, piece(PieceType::Queen, PieceColor::White));
    b.set_at(3, 1, piece(PieceType::Pawn, PieceColor::Black));
    b.set_at(5, 5, piece(PieceType::Pawn, PieceColor::White));
    let ms: Vec<(u32, u32)> = moves_for_piece(&b, 3, 3).iter().map(|m| m.to).collect();
    assert!(ms.contains(&(3, 1)));
    assert!(!ms.contains(&(3, 0)));
    assert!(ms.contains(&(4, 4)));
    assert!(!ms.contains(&(5, 5)));
    assert!(!ms.contains(&(6, 6)));
    assert_eq!(ms.len(), 23);
}

#[test]
fn adjacent_kings_are_check() {
    let mut b = empty_board();
    b.set_at(4, 4, piece(PieceType::King, PieceColor::White));
    b.set_at(4, 2, piece(PieceType::King, PieceColor::Black));
    assert!(!is_in_check(&b, PieceColor::White));
    let d = destinations(&b, 4, 4);
    assert!(!d.contains(&(4, 3)));
    assert!(!d.contains(&(3, 3)));
    assert!(d.contains(&(4, 5)));
    b.set_at(4, 3, piece(PieceType::Rook, PieceColor::Black));
    assert!(is_in_check(&b, PieceColor::White));
}

#[test]
fn evaluation_scores() {
    let b = new_game();
    assert_eq!(b.eval(PieceColor::White), 0);
    let mut lone = empty_board();
    lone.set_at(4, 7, piece(PieceType::King, PieceColor::White));
    lone.set_at(4, 0, piece(PieceType::King, PieceColor::Black));
    lone.set_at(0, 6, piece(PieceType::Pawn, PieceColor::White));
    assert_eq!(lone.eval(PieceColor::White), 105);
    lone.set_at(3, 3, piece(PieceType::Knight, PieceColor::Black));
    assert_eq!(lone.eval(PieceColor::White), 105 - 340);
    assert_eq!(worst_eval(PieceColor::White), -1_000_000);
    assert_eq!(worst_eval(PieceColor::Black), 1_000_000);
}

#[test]
fn checkmated_side_gets_mate_score() {
    let b = before_fools_mate().apply_move(mv((3, 0), (7, 4)));
    assert_eq!(b.eval(PieceColor::White), -1_000_000);
}

#[test]
fn search_finds_mate_in_one() {
    let b = before_fools_mate();
    let (best, score) = search(b, 1, PieceColor::Black);
    let best = best.unwrap();
    assert_eq!(best.from, (3, 0));
    assert_eq!(best.to, (7, 4));
    assert_eq!(score, -1_000_000);
}

#[test]
fn search_at_depth_zero_is_static() {
    let b = new_game();
    assert_eq!(search(b, 0, PieceColor::White), (None, 0));
}

fn full_minimax(b: Board, depth: u32, color: PieceColor) -> i32 {
    if depth == 0 {
        return b.eval(color);
    }
    let mut best = worst_eval(color);
    for m in b.moves_for_player(color) {
        let v = full_minimax(b.apply_move(m), depth - 1, color.opposite());
        if (color.is_white() && v > best) || (color.is_black() && v < best) {
            best = v;
        }
    }
    best
}

#[test]
fn pruning_keeps_the_minimax_value() {
    let b = Board::after_e4_d5();
    for color in [PieceColor::White, PieceColor::Black] {
        let expected = full_minimax(b, 2, color);
        assert_eq!(search(b, 2, color).1, expected);
        assert_eq!(minimax(b, 2, color, i32::MIN, i32::MAX).1, expected);
    }
}

#[test]
fn narrow_window_bounds_the_value() {
    let b = Board::after_e4_d5();
    let exact = full_minimax(b, 2, PieceColor::White);
    let (_, high) = minimax(b, 2, PieceColor::White, exact + 10, exact + 20);
    assert!(high <= exact + 10 && exact <= high);
    let (_, low) = minimax(b, 2, PieceColor::White, exact - 20, exact - 10);
    assert!(low >= exact - 10 && exact >= low);
}

#[test]
fn oracle_accepts_exactly_the_generated_moves() {
    let positions = [
        new_game(),
        before_fools_mate(),
        castling_position(),
        en_passant_position().apply_move(mv((3, 1), (3, 3))),
    ];
    for b in positions.iter() {
        for i in 0..64u32 {
            let (x, y) = to_coord(i);
            if b.at(x, y).is_none() {
                continue;
            }
            let generated = moves_for_piece(b, x, y);
            for m in generated.iter() {
                assert!(is_move_legal(b, *m));
            }
            for j in 0..64u32 {
                let to = to_coord(j);
                let plain = mv((x, y), to);
                assert_eq!(is_move_legal(b, plain), generated.contains(&plain));
            }
        }
    }
}

#[test]
fn empty_window_still_searches_first_move() {
    let b = new_game();
    let (best, score) = minimax(b, 1, PieceColor::White, 0, 0);
    let first = b.moves_for_player(PieceColor::White)[0];
    assert_eq!(best, Some(first));
    assert_eq!(score, b.apply_move(first).eval(PieceColor::Black));
}

#[test]
fn depth_zero_ignores_window() {
    let b = before_fools_mate();
    let expected = b.eval(PieceColor::White);
    assert_eq!(minimax(b, 0, PieceColor::White, expected + 5, expected + 50), (None, expected));
}

#[test]
fn no_legal_moves_scores_as_mate() {
    let b = before_fools_mate().apply_move(mv((3, 0), (7, 4)));
    assert_eq!(minimax(b, 2, PieceColor::White, 0, 10), (None, -1_000_000));
    assert_eq!(search(b, 3, PieceColor::White), (None, -1_000_000));
}

#[test]
fn mated_side_still_gets_a_move() {
    // White's only move, c3-c4, allows Ra2-a1 mate.
    let mut b = empty_board();
    b.castling_rights = [false; 4];
    b.set_at(7, 7, piece(PieceType::King, PieceColor::White));
    b.set_at(2, 5, piece(PieceType::Pawn, PieceColor::White));
    b.set_at(4, 0, piece(PieceType::King, PieceColor::Black));
    b.set_at(6, 0, piece(PieceType::Rook, PieceColor::Black));
    b.set_at(0, 6, piece(PieceType::Rook, PieceColor::Black));
    b.set_at(3, 2, piece(PieceType::Bishop, PieceColor::Black));
    assert_eq!(b.moves_for_player(PieceColor::White).len(), 1);
    let (best, score) = search(b, 2, PieceColor::White);
    let best = best.unwrap();
    assert_eq!((best.from, best.to), ((2, 5), (2, 4)));
    assert_eq!(score, -1_000_000);
}

#[test]
fn diagonal_two_rank_pawn_move_opens_no_en_passant() {
    let mut b = empty_board();
    b.set_at(2, 6, piece(PieceType::Pawn, PieceColor::White));
    let after = b.apply_move(mv((2, 6), (3, 4)));
    assert_eq!(after.en_passant_square, None);
}

#[test]
fn legal_moves_keep_all_four_promotions() {
    let mut b = empty_board();
    b.castling_rights = [false; 4];
    b.set_at(7, 7, piece(PieceType::King, PieceColor::White));
    b.set_at(0, 0, piece(PieceType::King, PieceColor::Black));
    b.set_at(2, 1, piece(PieceType::Pawn, PieceColor::White));
    b.set_at(3, 0, piece(PieceType::Knight, PieceColor::Black));
    let promos: Vec<(u32, u32, PieceType)> = b
        .moves_for_player(PieceColor::White)
        .iter()
        .filter(|m| m.from == (2, 1))
        .map(|m| (m.to.0, m.to.1, m.promotion.unwrap().class))
        .collect();
    let kinds = [PieceType::Knight, PieceType::Bishop, PieceType::Rook, PieceType::Queen];
    let mut expected = vec![];
    for to in [(2u32, 0u32), (3, 0)] {
        for k in kinds {
            expected.push((to.0, to.1, k));
        }
    }
    assert_eq!(promos, expected);
}
