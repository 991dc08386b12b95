use chess::{Board, BoardStatus, ChessMove, Color, MoveGen, Square};
use chess_engine::minimax::{
    mate_adjustment, material_score, piece_value, square_weight, MiniMax, SearchError,
};
use chess_engine::oracle::{GameStatus, PieceKind, Side};
use chess_engine::position::{is_sound_board, Occupant};
use chess_engine::{parse_square, status_name, Chess};
use std::str::FromStr;

const START_FEN: &str = "rnbqkbnr/pppppppp/8/8/8/8/PPPPPPPP/RNBQKBNR w KQkq - 0 1";
const SCHOLAR_FEN: &str = "r1bqkbnr/pppp1ppp/2n5/4p3/2B1P3/5Q2/PPPP1PPP/RNB1K1NR w KQkq - 4 4";
const FOOLS_MATE_FEN: &str = "rnb1kbnr/pppp1ppp/8/4p3/6Pq/5P2/PPPPP2P/RNBQKBNR w KQkq - 1 3";

fn board(fen: &str) -> Board {
    Board::from_str(fen).unwrap()
}

fn strings(a: &str, b: &str) -> Vec<String> {
    vec![a.to_string(), b.to_string()]
}

/// Plain minimax without pruning, scored the same way as the engine.
fn exhaustive(b: &Board, depth: u8, maximizing: bool, color: Side) -> i32 {
    let moves: Vec<ChessMove> = MoveGen::new_legal(b).collect();
    if depth == 0 || moves.is_empty() {
        return MiniMax::evaluation(b, color);
    }
    let scores = moves
        .iter()
        .map(|m| exhaustive(&b.make_move_new(*m), depth - 1, !maximizing, color));
    if maximizing {
        scores.max().unwrap()
    } else {
        scores.min().unwrap()
    }
}

#[test]
fn test_minimax() {
    let board = Board::default();
    let color = Side::White;
    let depth = 3;
    let best_move = MiniMax::minimax(&board, depth, i32::MIN, i32::MAX, true, color);
    assert_eq!(best_move >= 0, true);
}

#[test]
fn test_evaluation() {
    let board = Board::default();
    let color = Side::White;
    let score = MiniMax::evaluation(&board, color);
    assert_eq!(score, 0);
}

#[test]
fn starting_position_scores_zero_for_both_sides() {
    let b = Board::default();
    assert_eq!(MiniMax::evaluation(&b, Side::White), 0);
    assert_eq!(MiniMax::evaluation(&b, Side::Black), 0);
}

#[test]
fn central_pawn_scores_its_weight() {
    // After 1. e4 the pawn on e4 counts three times its value.
    let b = board("rnbqkbnr/pppppppp/8/8/4P3/8/PPPP1PPP/RNBQKBNR b KQkq - 0 1");
    assert_eq!(MiniMax::evaluation(&b, Side::White), 200);
    assert_eq!(MiniMax::evaluation(&b, Side::Black), -200);
}

#[test]
fn evaluation_is_antisymmetric() {
    for fen in [SCHOLAR_FEN, "r1bqkb1r/pppp1ppp/2n2n2/4p3/2B1P3/5Q2/PPPP1PPP/RNB1K1NR w KQkq - 0 1"] {
        let b = board(fen);
        assert_eq!(MiniMax::evaluation(&b, Side::White), -MiniMax::evaluation(&b, Side::Black));
    }
}

#[test]
fn checkmate_dominates_the_score() {
    let b = board(FOOLS_MATE_FEN);
    assert_eq!(b.status(), BoardStatus::Checkmate);
    let white = MiniMax::evaluation(&b, Side::White);
    let black = MiniMax::evaluation(&b, Side::Black);
    assert_eq!(white, -black);
    assert!(white < -944_000);
    assert!(black > 944_000);
}

#[test]
fn depth_zero_search_is_the_evaluation() {
    for fen in [START_FEN, SCHOLAR_FEN, FOOLS_MATE_FEN] {
        let b = board(fen);
        for maximizing in [true, false] {
            for side in [Side::White, Side::Black] {
                let e = MiniMax::evaluation(&b, side);
                assert_eq!(MiniMax::minimax(&b, 0, i32::MIN, i32::MAX, maximizing, side), e);
                assert_eq!(MiniMax::minimax(&b, 0, 5, 6, maximizing, side), e.clamp(5, 6));
            }
        }
    }
}

#[test]
fn alpha_beta_matches_exhaustive_minimax() {
    for fen in [START_FEN, SCHOLAR_FEN, "4k3/8/8/3q4/8/8/3Q4/4K3 w - - 0 1"] {
        let b = board(fen);
        for depth in 1..=2 {
            for maximizing in [true, false] {
                let color = Side::White;
                assert_eq!(
                    MiniMax::minimax(&b, depth, i32::MIN, i32::MAX, maximizing, color),
                    exhaustive(&b, depth, maximizing, color)
                );
            }
        }
    }
    let b = board("4k3/8/8/3q4/8/8/3Q4/4K3 w - - 0 1");
    assert_eq!(
        MiniMax::minimax(&b, 3, i32::MIN, i32::MAX, true, Side::White),
        exhaustive(&b, 3, true, Side::White)
    );
}

#[test]
fn narrow_window_bounds_the_value() {
    let b = board(SCHOLAR_FEN);
    let v = exhaustive(&b, 2, true, Side::White);
    // Fail-hard: a value outside the window comes back as the nearer bound.
    assert_eq!(MiniMax::minimax(&b, 2, v + 10, v + 20, true, Side::White), v + 10);
    assert_eq!(MiniMax::minimax(&b, 2, v - 20, v - 10, true, Side::White), v - 10);
    assert_eq!(MiniMax::minimax(&b, 2, v - 1, v + 1, true, Side::White), v);
}

#[test]
fn opening_move_is_legal_and_deterministic() {
    let b = Board::default();
    let legal: Vec<ChessMove> = MoveGen::new_legal(&b).collect();
    assert_eq!(legal.len(), 20);
    let first = MiniMax::eval_best_move(&b, 1).unwrap();
    assert!(legal.contains(&first));
    for _ in 0..3 {
        assert_eq!(MiniMax::eval_best_move(&b, 1).unwrap(), first);
    }
}

#[test]
fn best_move_takes_the_mate() {
    let b = board(SCHOLAR_FEN);
    let mate = ChessMove::new(Square::F3, Square::F7, None);
    assert_eq!(MiniMax::eval_best_move(&b, 1), Ok(mate));
    assert_eq!(MiniMax::eval_best_move(&b, 2), Ok(mate));
    assert_eq!(b.make_move_new(mate).status(), BoardStatus::Checkmate);
}

#[test]
fn best_move_for_black_takes_the_mate() {
    // Black to move mates with Qh4.
    let b = board("rnbqkbnr/pppp1ppp/8/4p3/6P1/5P2/PPPPP2P/RNBQKBNR b KQkq - 0 2");
    assert_eq!(b.side_to_move(), Color::Black);
    let mate = ChessMove::new(Square::D8, Square::H4, None);
    assert_eq!(MiniMax::eval_best_move(&b, 1), Ok(mate));
}

#[test]
fn no_move_on_a_finished_game() {
    let b = board(FOOLS_MATE_FEN);
    assert_eq!(MiniMax::eval_best_move(&b, 2), Err(SearchError::NoLegalMoves));
    let stalemate = board("7k/5Q2/6K1/8/8/8/8/8 b - - 0 1");
    assert_eq!(stalemate.status(), BoardStatus::Stalemate);
    assert_eq!(MiniMax::eval_best_move(&stalemate, 1), Err(SearchError::NoLegalMoves));
}

#[test]
fn square_weights_and_piece_values() {
    assert_eq!(square_weight(0), 1);
    assert_eq!(square_weight(26), 2);
    assert_eq!(square_weight(27), 3);
    assert_eq!(square_weight(36), 3);
    assert_eq!(square_weight(37), 2);
    assert_eq!(square_weight(63), 1);
    assert_eq!(piece_value(PieceKind::Pawn), 100);
    assert_eq!(piece_value(PieceKind::Bishop), 300);
    assert_eq!(piece_value(PieceKind::Knight), 310);
    assert_eq!(piece_value(PieceKind::Rook), 500);
    assert_eq!(piece_value(PieceKind::Queen), 900);
    assert_eq!(piece_value(PieceKind::King), 2000);
}

#[test]
fn material_score_of_chosen_squares() {
    let mut squares: Vec<Occupant> = vec![None; 64];
    squares[27] = Some((PieceKind::Knight, Side::White)); // d4: 310 * 3
    squares[0] = Some((PieceKind::Rook, Side::Black)); // a1: 500 * 1
    squares[35] = Some((PieceKind::King, Side::Black)); // d5: king, no weight
    assert_eq!(material_score(&squares, Side::White), 930 - 500 - 2000);
    assert_eq!(material_score(&squares, Side::Black), -930 + 500 + 2000);
    assert_eq!(material_score(&vec![None; 64], Side::White), 0);
}

#[test]
fn mate_term_counts_against_the_side_to_move() {
    assert_eq!(mate_adjustment(GameStatus::Checkmate, Side::White, Side::White), -1_000_000);
    assert_eq!(mate_adjustment(GameStatus::Checkmate, Side::White, Side::Black), 1_000_000);
    assert_eq!(mate_adjustment(GameStatus::Checkmate, Side::Black, Side::Black), -1_000_000);
    assert_eq!(mate_adjustment(GameStatus::Stalemate, Side::Black, Side::White), 0);
    assert_eq!(mate_adjustment(GameStatus::Ongoing, Side::White, Side::White), 0);
}

#[test]
fn square_names() {
    assert_eq!(parse_square("a1"), Some(0));
    assert_eq!(parse_square("e4"), Some(28));
    assert_eq!(parse_square("h8"), Some(63));
    assert_eq!(parse_square("i1"), None);
    assert_eq!(parse_square("a9"), None);
    assert_eq!(parse_square("a"), None);
    assert_eq!(parse_square(""), None);
}

#[test]
fn status_names() {
    assert_eq!(status_name(GameStatus::Ongoing), "Ongoing");
    assert_eq!(status_name(GameStatus::Stalemate), "Stalemate");
    assert_eq!(status_name(GameStatus::Checkmate), "Checkmate");
}

#[test]
fn game_starts_at_the_standard_position() {
    let g = Chess::new();
    assert_eq!(g.to_fen(), START_FEN);
}

#[test]
fn game_checks_moves() {
    let g = Chess::new();
    assert!(g.validate_move(strings("e2", "e4")));
    assert!(g.validate_move(strings("g1", "f3")));
    assert!(!g.validate_move(strings("e2", "e5")));
    assert!(!g.validate_move(strings("e7", "e5")));
    assert!(!g.validate_move(strings("zz", "e4")));
}

#[test]
fn game_plays_moves() {
    let mut g = Chess::new();
    assert_eq!(g.make_move(strings("e2", "e4")), "Ongoing");
    assert!(g.to_fen().starts_with("rnbqkbnr/pppppppp/8/8/4P3/8/PPPP1PPP/RNBQKBNR b KQkq "));
    // An illegal move leaves the game as it is.
    let before = g.to_fen();
    assert_eq!(g.make_move(strings("e4", "e6")), "Ongoing");
    assert_eq!(g.to_fen(), before);
    assert_eq!(g.make_move(strings("e7", "e5")), "Ongoing");
    assert_eq!(g.make_move(strings("d1", "h5")), "Ongoing");
    assert_eq!(g.make_move(strings("b8", "c6")), "Ongoing");
    assert_eq!(g.make_move(strings("f1", "c4")), "Ongoing");
    assert_eq!(g.make_move(strings("g8", "f6")), "Ongoing");
    assert_eq!(g.make_move(strings("h5", "f7")), "Checkmate");
}

#[test]
fn engine_answers_and_reset_restarts() {
    let mut g = Chess::new();
    assert_eq!(g.make_move(strings("e2", "e4")), "Ongoing");
    let before = g.to_fen();
    assert_eq!(g.make_engine_move(), "Ongoing");
    let after = g.to_fen();
    assert_ne!(before, after);
    assert!(after.contains(" w "));
    g.reset();
    assert_eq!(g.to_fen(), START_FEN);
}

#[test]
fn engine_leaves_a_finished_game() {
    let mut g = Chess::new();
    for (a, b) in [("f2", "f3"), ("e7", "e5"), ("g2", "g4")] {
        assert_eq!(g.make_move(strings(a, b)), "Ongoing");
    }
    assert_eq!(g.make_move(strings("d8", "h4")), "Checkmate");
    let before = g.to_fen();
    assert_eq!(g.make_engine_move(), "Checkmate");
    assert_eq!(g.to_fen(), before);
}

#[test]
fn sound_boards_are_accepted() {
    for fen in [START_FEN, SCHOLAR_FEN, FOOLS_MATE_FEN, "4k3/8/8/3q4/8/8/3Q4/4K3 w - - 0 1"] {
        assert!(is_sound_board(&board(fen)));
    }
}
