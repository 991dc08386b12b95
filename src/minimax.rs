//! Position evaluation and depth-bounded alpha-beta search.
use crate::oracle::{
    after, after_of, legal_moves, legal_moves_of, side_to_move, side_to_move_of, status,
    status_of, GameStatus, PieceKind, Side,
};
use crate::position::{
    board_occupants, board_sound, is_sound_board, king_count, occupants_of, side_count, Occupant,
};
use vstd::prelude::*;

verus! {

/// The bonus that a checkmate adds to the material score.
pub const MATE_BONUS: i32 = 1_000_000;

/// The largest material and positional score that any board can reach
/// (no square contributes more than a queen on a weight-3 square).
pub const MATERIAL_BOUND: i32 = 172_800;

/// The largest score that the evaluator can return.
pub const EVAL_BOUND: i32 = 1_172_800;

/// The material value of a piece kind, in centipawns.
pub open spec fn base_value(k: PieceKind) -> int {
    match k {
        PieceKind::Pawn => 100,
        PieceKind::Bishop => 300,
        PieceKind::Knight => 310,
        PieceKind::Rook => 500,
        PieceKind::Queen => 900,
        PieceKind::King => 2000,
    }
}

/// The positional weight of square `sq`: 3 on d4, e4, d5, e5; 2 on c4, f4,
/// c5, f5; 1 elsewhere.
pub open spec fn weight(sq: int) -> int {
    let rank = sq / 8;
    let file = sq % 8;
    if rank == 3 || rank == 4 {
        if file == 3 || file == 4 {
            3
        } else if file == 2 || file == 5 {
            2
        } else {
            1
        }
    } else {
        1
    }
}

/// +1 for a piece of the perspective's side, -1 for one of the other side.
pub open spec fn sign(c: Side, perspective: Side) -> int {
    if c == perspective {
        1
    } else {
        -1
    }
}

/// What a square contributes to the score; a king counts without weight.
pub open spec fn square_score(o: Occupant, sq: int, perspective: Side) -> int {
    match o {
        None => 0,
        Some((k, c)) => if k == PieceKind::King {
            sign(c, perspective) * base_value(k)
        } else {
            sign(c, perspective) * base_value(k) * weight(sq)
        },
    }
}

/// The sum of the scores of the first `n` squares.
pub open spec fn material_upto(s: Seq<Occupant>, perspective: Side, n: int) -> int
    decreases n,
{
    if n <= 0 {
        0
    } else {
        material_upto(s, perspective, n - 1) + square_score(s[n - 1], n - 1, perspective)
    }
}

/// The material and positional score of a board's 64 squares.
pub open spec fn material(s: Seq<Occupant>, perspective: Side) -> int {
    material_upto(s, perspective, 64)
}

/// The term that a checkmate adds: it counts against the side that is mated,
/// which is the side to move.
pub open spec fn mate_term(st: GameStatus, to_move: Side, perspective: Side) -> int {
    if st == GameStatus::Checkmate {
        if to_move == perspective {
            -MATE_BONUS
        } else {
            MATE_BONUS as int
        }
    } else {
        0
    }
}

/// The score of a board from the perspective's point of view.
pub open spec fn evaluate(b: chess::Board, perspective: Side) -> int {
    material(occupants_of(b), perspective) + mate_term(
        status_of(b),
        side_to_move_of(b),
        perspective,
    )
}

proof fn lemma_square_score_bounded(o: Occupant, sq: int, perspective: Side)
    requires
        0 <= sq < 64,
    ensures
        -2700 <= square_score(o, sq, perspective) <= 2700,
{
}

proof fn lemma_material_upto_bounded(s: Seq<Occupant>, perspective: Side, n: int)
    requires
        0 <= n <= 64,
    ensures
        -2700 * n <= material_upto(s, perspective, n) <= 2700 * n,
    decreases n,
{
    if n > 0 {
        lemma_material_upto_bounded(s, perspective, n - 1);
        lemma_square_score_bounded(s[n - 1], n - 1, perspective);
    }
}

/// No board scores beyond `EVAL_BOUND`.
pub proof fn lemma_evaluate_bounded(b: chess::Board, perspective: Side)
    ensures
        -EVAL_BOUND <= evaluate(b, perspective) <= EVAL_BOUND,
        -MATERIAL_BOUND <= material(occupants_of(b), perspective) <= MATERIAL_BOUND,
{
    lemma_material_bounded(occupants_of(b), perspective);
}

/// The material score of any 64 squares lies within `MATERIAL_BOUND`.
pub proof fn lemma_material_bounded(s: Seq<Occupant>, perspective: Side)
    ensures
        -MATERIAL_BOUND <= material(s, perspective) <= MATERIAL_BOUND,
{
    lemma_material_upto_bounded(s, perspective, 64);
}

/// The positional weight of a square.
pub fn square_weight(sq: u8) -> (r: i32)
    requires
        sq < 64,
    ensures
        r == weight(sq as int),
{
    let rank: u8 = sq / 8;
    let file: u8 = sq % 8;
    if rank == 3 || rank == 4 {
        if file == 3 || file == 4 {
            3
        } else if file == 2 || file == 5 {
            2
        } else {
            1
        }
    } else {
        1
    }
}

/// The material value of a piece kind, in centipawns.
pub fn piece_value(k: PieceKind) -> (r: i32)
    ensures
        r == base_value(k),
{
    match k {
        PieceKind::Pawn => 100,
        PieceKind::Bishop => 300,
        PieceKind::Knight => 310,
        PieceKind::Rook => 500,
        PieceKind::Queen => 900,
        PieceKind::King => 2000,
    }
}

/// The material and positional score of 64 squares (a1 first) from the
/// perspective's point of view.
pub fn material_score(squares: &Vec<Occupant>, perspective: Side) -> (r: i32)
    requires
        squares@.len() == 64,
    ensures
        r == material(squares@, perspective),
{
    let mut score: i32 = 0;
    let mut i: usize = 0;
    while i < 64
        invariant
            0 <= i <= 64,
            squares@.len() == 64,
            score == material_upto(squares@, perspective, i as int),
        decreases 64 - i,
    {
        proof {
            lemma_material_upto_bounded(squares@, perspective, i as int);
            lemma_square_score_bounded(squares@[i as int], i as int, perspective);
        }
        match squares[i] {
            None => {},
            Some((k, c)) => {
                let sign: i32 = if c == perspective { 1 } else { -1 };
                let value = piece_value(k);
                if k == PieceKind::King {
                    score = score + value * sign;
                } else {
                    let w = square_weight(i as u8);
                    assert(value * w <= 2700) by (nonlinear_arith)
                        requires 0 <= value <= 900, 1 <= w <= 3;
                    assert(value * w * sign == sign * value * w) by (nonlinear_arith);
                    score = score + value * w * sign;
                }
            },
        }
        i = i + 1;
    }
    score
}

/// The checkmate term of the score: `MATE_BONUS` against the side to move
/// when it is mated, nothing otherwise.
pub fn mate_adjustment(st: GameStatus, to_move: Side, perspective: Side) -> (r: i32)
    ensures
        r == mate_term(st, to_move, perspective),
{
    if st == GameStatus::Checkmate {
        if to_move == perspective {
            -MATE_BONUS
        } else {
            MATE_BONUS
        }
    } else {
        0
    }
}

/// The score that a side starts from before it has seen any move: worse for
/// it than any score the evaluator can give.
pub const SEARCH_SENTINEL: i32 = 100_000_000;

/// The minimax value of a board searched `depth` plies deep from
/// `perspective`'s point of view, `maximizing` when the side to move is the
/// one whose score is maximized. A board that the move generator cannot
/// handle is scored by its material alone; a leaf, or a board without legal
/// moves, by the evaluator.
pub open spec fn minimax_value(b: chess::Board, depth: nat, maximizing: bool, perspective: Side) -> int
    decreases depth, 0nat,
{
    if !board_sound(b) {
        material(occupants_of(b), perspective)
    } else if depth == 0 || legal_moves_of(b).len() == 0 {
        evaluate(b, perspective)
    } else {
        best_of_children(b, (depth - 1) as nat, maximizing, perspective, legal_moves_of(b).len())
    }
}

/// The best value, for the side to move, among the first `k` children of a
/// board, each searched `child_depth` plies deep; the sentinel when `k == 0`.
pub open spec fn best_of_children(
    b: chess::Board,
    child_depth: nat,
    maximizing: bool,
    perspective: Side,
    k: nat,
) -> int
    decreases child_depth, k + 1,
{
    if k == 0 {
        if maximizing {
            -SEARCH_SENTINEL
        } else {
            SEARCH_SENTINEL as int
        }
    } else {
        let prev = best_of_children(b, child_depth, maximizing, perspective, (k - 1) as nat);
        let child = after_of(b, legal_moves_of(b)[k - 1]);
        let v = minimax_value(child, child_depth, !maximizing, perspective);
        if maximizing {
            if v > prev { v } else { prev }
        } else {
            if v < prev { v } else { prev }
        }
    }
}

/// `v` clamped to the window `[lo, hi]`.
pub open spec fn clamp(v: int, lo: int, hi: int) -> int {
    if v < lo {
        lo
    } else if v > hi {
        hi
    } else {
        v
    }
}

/// The largest score that a search can return: the evaluation of a sound
/// board, or the material score of one the move generator cannot handle.
pub const SEARCH_BOUND: i32 = 1_037_800;

/// Every minimax value lies within `SEARCH_BOUND`.
pub proof fn lemma_minimax_value_bounded(b: chess::Board, depth: nat, maximizing: bool, perspective: Side)
    ensures
        -SEARCH_BOUND <= minimax_value(b, depth, maximizing, perspective) <= SEARCH_BOUND,
    decreases depth, 0nat,
{
    if !board_sound(b) {
        lemma_material_bounded(occupants_of(b), perspective);
    } else if depth == 0 || legal_moves_of(b).len() == 0 {
        lemma_sound_material_bounded(b, perspective);
    } else {
        lemma_best_of_children_bounded(
            b,
            (depth - 1) as nat,
            maximizing,
            perspective,
            legal_moves_of(b).len(),
        );
    }
}

proof fn lemma_best_of_children_bounded(
    b: chess::Board,
    child_depth: nat,
    maximizing: bool,
    perspective: Side,
    k: nat,
)
    requires
        k >= 1,
    ensures
        -SEARCH_BOUND <= best_of_children(b, child_depth, maximizing, perspective, k) <= SEARCH_BOUND,
    decreases child_depth, k + 1,
{
    let child = after_of(b, legal_moves_of(b)[k - 1]);
    lemma_minimax_value_bounded(child, child_depth, !maximizing, perspective);
    reveal_with_fuel(best_of_children, 2);
    if k > 1 {
        lemma_best_of_children_bounded(b, child_depth, maximizing, perspective, (k - 1) as nat);
    }
}

/// The best of more children is at least as good for the side to move.
proof fn lemma_best_of_children_monotone(
    b: chess::Board,
    child_depth: nat,
    maximizing: bool,
    perspective: Side,
    i: nat,
    k: nat,
)
    requires
        i <= k,
    ensures
        maximizing ==> best_of_children(b, child_depth, maximizing, perspective, i)
            <= best_of_children(b, child_depth, maximizing, perspective, k),
        !maximizing ==> best_of_children(b, child_depth, maximizing, perspective, i)
            >= best_of_children(b, child_depth, maximizing, perspective, k),
    decreases k,
{
    if i < k {
        lemma_best_of_children_monotone(b, child_depth, maximizing, perspective, i, (k - 1) as nat);
    }
}

/// Why no move can be chosen.
#[derive(Clone, Copy, Debug, PartialEq, Eq, Structural)]
pub enum SearchError {
    /// The position has no legal move: the game is over.
    NoLegalMoves,
}

/// The depth to which each root move's resulting position is searched.
pub open spec fn child_depth(depth: nat) -> nat {
    if depth == 0 {
        0
    } else {
        (depth - 1) as nat
    }
}

/// The score of the `j`-th legal root move, for the side to move.
pub open spec fn root_score(b: chess::Board, depth: nat, j: int) -> int {
    minimax_value(after_of(b, legal_moves_of(b)[j]), child_depth(depth), false, side_to_move_of(b))
}

/// The `j`-th legal root move scores highest, and no earlier move scores as
/// high.
pub open spec fn is_first_best(b: chess::Board, depth: nat, j: int) -> bool {
    &&& 0 <= j < legal_moves_of(b).len()
    &&& forall|k: int| 0 <= k < legal_moves_of(b).len() ==> root_score(b, depth, k) <= root_score(b, depth, j)
    &&& forall|k: int| 0 <= k < j ==> root_score(b, depth, k) < root_score(b, depth, j)
}

/// Material scores are antisymmetric in the perspective.
proof fn lemma_material_upto_antisymmetric(s: Seq<Occupant>, p: Side, n: int)
    ensures
        material_upto(s, p, n) == -material_upto(s, p.opposite_spec(), n),
    decreases n,
{
    if n > 0 {
        lemma_material_upto_antisymmetric(s, p, n - 1);
        let o = s[n - 1];
        let w = weight(n - 1);
        match o {
            None => {},
            Some((k, c)) => {
                assert(sign(c, p) == -sign(c, p.opposite_spec()));
                assert(sign(c, p) * base_value(k) * w == -(sign(c, p.opposite_spec()) * base_value(k) * w))
                    by (nonlinear_arith)
                    requires sign(c, p) == -sign(c, p.opposite_spec());
            },
        }
    }
}

/// A board scores the same for one side as against the other, checkmate
/// included: `evaluate(b, c) == -evaluate(b, opposite(c))`.
pub proof fn lemma_evaluate_antisymmetric(b: chess::Board, perspective: Side)
    ensures
        evaluate(b, perspective) == -evaluate(b, perspective.opposite_spec()),
        material(occupants_of(b), perspective) == -material(occupants_of(b), perspective.opposite_spec()),
        mate_term(status_of(b), side_to_move_of(b), perspective)
            == -mate_term(status_of(b), side_to_move_of(b), perspective.opposite_spec()),
{
    lemma_material_upto_antisymmetric(occupants_of(b), perspective, 64);
}

/// How much more than 1 the weights of the first `n` squares add up to.
spec fn extra_weight_upto(n: int) -> int
    decreases n,
{
    if n <= 0 {
        0
    } else {
        extra_weight_upto(n - 1) + weight(n - 1) - 1
    }
}

/// The kings' part of the material score of the first `n` squares.
spec fn kings_term(s: Seq<Occupant>, p: Side, n: int) -> int {
    2000 * (king_count(s, p, n) - king_count(s, p.opposite_spec(), n))
}

proof fn lemma_material_upto_by_count(s: Seq<Occupant>, p: Side, n: int)
    requires
        0 <= n <= 64,
    ensures
        ({
            let others = side_count(s, Side::White, n) + side_count(s, Side::Black, n)
                - king_count(s, Side::White, n) - king_count(s, Side::Black, n);
            let d = material_upto(s, p, n) - kings_term(s, p, n);
            &&& -900 * (others + extra_weight_upto(n)) <= d
            &&& d <= 900 * (others + extra_weight_upto(n))
            &&& 0 <= extra_weight_upto(n)
        }),
    decreases n,
{
    if n > 0 {
        lemma_material_upto_by_count(s, p, n - 1);
        let o = s[n - 1];
        let w = weight(n - 1);
        let q = p.opposite_spec();
        assert(material_upto(s, p, n) == material_upto(s, p, n - 1) + square_score(o, n - 1, p));
        assert(extra_weight_upto(n) == extra_weight_upto(n - 1) + w - 1);
        assert(1 <= w <= 3);
        match o {
            None => {
                assert(side_count(s, Side::White, n) == side_count(s, Side::White, n - 1));
                assert(side_count(s, Side::Black, n) == side_count(s, Side::Black, n - 1));
                assert(king_count(s, Side::White, n) == king_count(s, Side::White, n - 1));
                assert(king_count(s, Side::Black, n) == king_count(s, Side::Black, n - 1));
            },
            Some((k, c)) => {
                assert(side_count(s, c, n) == side_count(s, c, n - 1) + 1);
                assert(side_count(s, c.opposite_spec(), n) == side_count(s, c.opposite_spec(), n - 1));
                assert(king_count(s, c.opposite_spec(), n) == king_count(s, c.opposite_spec(), n - 1));
                if k == PieceKind::King {
                    assert(king_count(s, c, n) == king_count(s, c, n - 1) + 1);
                    assert(kings_term(s, p, n) == kings_term(s, p, n - 1) + sign(c, p) * 2000);
                } else {
                    assert(king_count(s, c, n) == king_count(s, c, n - 1));
                    assert(king_count(s, p, n) == king_count(s, p, n - 1));
                    assert(king_count(s, q, n) == king_count(s, q, n - 1));
                    assert(-900 * w <= sign(c, p) * base_value(k) * w <= 900 * w) by (nonlinear_arith)
                        requires
                            1 <= w <= 3,
                            0 <= base_value(k) <= 900,
                            sign(c, p) == 1 || sign(c, p) == -1;
                }
            },
        }
    }
}

/// On a sound board the kings cancel and at most 30 other pieces remain, so
/// the material and positional score stays within 37800.
pub proof fn lemma_sound_material_bounded(b: chess::Board, p: Side)
    requires
        board_sound(b),
    ensures
        -37_800 <= material(occupants_of(b), p) <= 37_800,
{
    let s = occupants_of(b);
    lemma_material_upto_by_count(s, p, 64);
    assert(extra_weight_upto(64) == 12) by {
        reveal_with_fuel(extra_weight_upto, 65);
    }
}

/// On a checkmate of a sound board the score exceeds a hundred times a full
/// board's material (9440) in magnitude, whichever side's point of view.
pub proof fn lemma_checkmate_dominates_sound(b: chess::Board, perspective: Side)
    requires
        board_sound(b),
        status_of(b) == GameStatus::Checkmate,
    ensures
        evaluate(b, perspective) > 100 * 9440 || evaluate(b, perspective) < -100 * 9440,
{
    lemma_sound_material_bounded(b, perspective);
}

/// A search of depth zero of a sound board is its evaluation.
pub proof fn lemma_depth_zero_is_evaluation(b: chess::Board, maximizing: bool, perspective: Side)
    requires
        board_sound(b),
    ensures
        minimax_value(b, 0, maximizing, perspective) == evaluate(b, perspective),
{
}

/// A sound board on which the side to move is checkmated.
pub open spec fn is_sound_mate(b: chess::Board) -> bool {
    board_sound(b) && status_of(b) == GameStatus::Checkmate
}

/// At depth one or less, when some root move mates at once and playing a
/// move passes the turn, the first best root move mates at once too: a mate
/// scores at least `MATE_BONUS - MATERIAL_BOUND`, any other child at most
/// `MATERIAL_BOUND`.
pub proof fn lemma_best_takes_mate(b: chess::Board, depth: nat, j: int)
    requires
        depth <= 1,
        is_first_best(b, depth, j),
        forall|k: int| 0 <= k < legal_moves_of(b).len() ==> side_to_move_of(
            after_of(b, #[trigger] legal_moves_of(b)[k]),
        ) == side_to_move_of(b).opposite_spec(),
    ensures
        (exists|k: int|
            0 <= k < legal_moves_of(b).len() && is_sound_mate(after_of(b, #[trigger] legal_moves_of(b)[k])))
            ==> is_sound_mate(after_of(b, legal_moves_of(b)[j])),
{
    let p = side_to_move_of(b);
    if exists|k: int|
        0 <= k < legal_moves_of(b).len() && is_sound_mate(after_of(b, #[trigger] legal_moves_of(b)[k])) {
        let k = choose|k: int|
            0 <= k < legal_moves_of(b).len() && is_sound_mate(after_of(b, #[trigger] legal_moves_of(b)[k]));
        let mate = after_of(b, legal_moves_of(b)[k]);
        let best = after_of(b, legal_moves_of(b)[j]);
        lemma_evaluate_bounded(mate, p);
        lemma_evaluate_bounded(best, p);
        lemma_material_bounded(occupants_of(best), p);
        assert(root_score(b, depth, k) == evaluate(mate, p));
        assert(side_to_move_of(mate) == p.opposite_spec());
        assert(root_score(b, depth, k) <= root_score(b, depth, j));
    }
}

/// `x` clamped to the window `[lo, hi]`.
pub fn clamp_score(x: i32, lo: i32, hi: i32) -> (r: i32)
    ensures
        r == clamp(x as int, lo as int, hi as int),
{
    if x < lo {
        lo
    } else if x > hi {
        hi
    } else {
        x
    }
}

pub struct MiniMax;

impl MiniMax {
    /// The score of a board from `color`'s point of view: material and
    /// position, plus the checkmate term.
    pub fn evaluation(board: &chess::Board, color: Side) -> (r: i32)
        requires
            board_sound(*board),
        ensures
            r == evaluate(*board, color),
    {
        let squares = board_occupants(board);
        let m = material_score(&squares, color);
        proof {
            lemma_material_bounded(squares@, color);
        }
        let st = status(board);
        let to_move = side_to_move(board);
        m + mate_adjustment(st, to_move, color)
    }

    /// Fail-hard alpha-beta search of `board` to `depth` plies, scored from
    /// `color`'s point of view; `is_maximizing` when the side to move is the
    /// one whose score is maximized. With `alpha < beta` the result is the
    /// minimax value clamped to the window `[alpha, beta]`.
    pub fn minimax(
        board: &chess::Board,
        depth: u8,
        alpha: i32,
        beta: i32,
        is_maximizing: bool,
        color: Side,
    ) -> (r: i32)
        ensures
            alpha < beta ==> r == clamp(
                minimax_value(*board, depth as nat, is_maximizing, color),
                alpha as int,
                beta as int,
            ),
            alpha < beta ==> alpha <= r <= beta,
            alpha < -SEARCH_BOUND && SEARCH_BOUND < beta ==> r == minimax_value(
                *board,
                depth as nat,
                is_maximizing,
                color,
            ),
            alpha < -SEARCH_BOUND && SEARCH_BOUND < beta ==> -SEARCH_BOUND <= r <= SEARCH_BOUND,
            depth == 0 && board_sound(*board) && alpha < beta ==> r == clamp(
                evaluate(*board, color),
                alpha as int,
                beta as int,
            ),
        decreases depth,
    {
        proof {
            lemma_minimax_value_bounded(*board, depth as nat, is_maximizing, color);
        }
        if !is_sound_board(board) {
            let squares = board_occupants(board);
            let m = material_score(&squares, color);
            return clamp_score(m, alpha, beta);
        }
        if depth == 0 {
            return clamp_score(Self::evaluation(board, color), alpha, beta);
        }
        let moves = legal_moves(board);
        if moves.len() == 0 {
            return clamp_score(Self::evaluation(board, color), alpha, beta);
        }
        let ghost cd = (depth - 1) as nat;
        if is_maximizing {
            let mut a: i32 = alpha;
            let mut best: i32 = -SEARCH_SENTINEL;
            let mut i: usize = 0;
            while i < moves.len()
                invariant
                    0 <= i <= moves@.len(),
                    moves@ == legal_moves_of(*board),
                    board_sound(*board),
                    depth >= 1,
                    cd == depth - 1,
                    is_maximizing,
                    i == 0 ==> a == alpha && best == -SEARCH_SENTINEL,
                    alpha < beta ==> ({
                        let v = best_of_children(*board, cd, true, color, i as nat);
                        &&& a < beta
                        &&& v > alpha ==> best == v
                        &&& v <= alpha ==> best <= alpha && a == alpha
                        &&& i > 0 && v > alpha ==> a == best
                    }),
                decreases moves@.len() - i,
            {
                let mv = moves[i];
                assert(legal_moves_of(*board).contains(mv)) by {
                    assert(legal_moves_of(*board)[i as int] == mv);
                }
                let child = after(board, mv);
                proof {
                    lemma_minimax_value_bounded(child, cd, false, color);
                }
                let score = Self::minimax(&child, depth - 1, a, beta, false, color);
                if score > best {
                    best = score;
                }
                if best > a {
                    a = best;
                }
                if a >= beta {
                    proof {
                        if alpha < beta {
                            let v = minimax_value(child, cd, false, color);
                            assert(v >= beta);
                            assert(best_of_children(*board, cd, true, color, (i + 1) as nat) >= beta);
                        }
                        lemma_best_of_children_monotone(*board, cd, true, color, (i + 1) as nat, moves@.len());
                    }
                    return clamp_score(best, alpha, beta);
                }
                i = i + 1;
            }
            clamp_score(best, alpha, beta)
        } else {
            let mut b: i32 = beta;
            let mut best: i32 = SEARCH_SENTINEL;
            let mut i: usize = 0;
            while i < moves.len()
                invariant
                    0 <= i <= moves@.len(),
                    moves@ == legal_moves_of(*board),
                    board_sound(*board),
                    depth >= 1,
                    cd == depth - 1,
                    !is_maximizing,
                    i == 0 ==> b == beta && best == SEARCH_SENTINEL,
                    alpha < beta ==> ({
                        let v = best_of_children(*board, cd, false, color, i as nat);
                        &&& alpha < b
                        &&& v < beta ==> best == v
                        &&& v >= beta ==> best >= beta && b == beta
                        &&& i > 0 && v < beta ==> b == best
                    }),
                decreases moves@.len() - i,
            {
                let mv = moves[i];
                assert(legal_moves_of(*board).contains(mv)) by {
                    assert(legal_moves_of(*board)[i as int] == mv);
                }
                let child = after(board, mv);
                proof {
                    lemma_minimax_value_bounded(child, cd, true, color);
                }
                let score = Self::minimax(&child, depth - 1, alpha, b, true, color);
                if score < best {
                    best = score;
                }
                if best < b {
                    b = best;
                }
                if b <= alpha {
                    proof {
                        if alpha < beta {
                            let v = minimax_value(child, cd, true, color);
                            assert(v <= alpha);
                            assert(best_of_children(*board, cd, false, color, (i + 1) as nat) <= alpha);
                        }
                        lemma_best_of_children_monotone(*board, cd, false, color, (i + 1) as nat, moves@.len());
                    }
                    return clamp_score(best, alpha, beta);
                }
                i = i + 1;
            }
            clamp_score(best, alpha, beta)
        }
    }

    /// The first legal move, in the generator's order, whose resulting
    /// position searches best for the side to move; each resulting position
    /// is searched `depth - 1` plies deep (zero plies when `depth` is 0).
    /// A finished game has no move to choose.
    pub fn eval_best_move(board: &chess::Board, depth: u8) -> (r: Result<chess::ChessMove, SearchError>)
        requires
            board_sound(*board),
        ensures
            r is Err <==> legal_moves_of(*board).len() == 0,
            r is Ok <==> status_of(*board) == GameStatus::Ongoing,
            r matches Err(e) ==> e == SearchError::NoLegalMoves,
            r matches Ok(m) ==> legal_moves_of(*board).contains(m),
            r matches Ok(m) ==> exists|j: int|
                is_first_best(*board, depth as nat, j) && #[trigger] legal_moves_of(*board)[j] == m,
            r matches Ok(m) ==> side_to_move_of(after_of(*board, m)) == side_to_move_of(
                *board,
            ).opposite_spec(),
            r matches Ok(m) ==> (depth <= 1 && exists|j: int|
                0 <= j < legal_moves_of(*board).len() && is_sound_mate(
                    after_of(*board, #[trigger] legal_moves_of(*board)[j]),
                )) ==> is_sound_mate(after_of(*board, m)),
    {
        if status(board) != GameStatus::Ongoing {
            return Err(SearchError::NoLegalMoves);
        }
        let moves = legal_moves(board);
        let color = side_to_move(board);
        let cd: u8 = if depth == 0 { 0 } else { depth - 1 };
        let mut best_score: i32 = i32::MIN;
        let mut best_idx: usize = 0;
        let mut i: usize = 0;
        while i < moves.len()
            invariant
                0 <= i <= moves@.len(),
                moves@ == legal_moves_of(*board),
                moves@.len() > 0,
                board_sound(*board),
                color == side_to_move_of(*board),
                forall|k: int| 0 <= k < i ==> {
                    let child = after_of(*board, #[trigger] legal_moves_of(*board)[k]);
                    &&& side_to_move_of(child) == color.opposite_spec()
                },
                cd as nat == child_depth(depth as nat),
                i == 0 ==> best_score == i32::MIN && best_idx == 0,
                i > 0 ==> best_idx < i && best_score == root_score(*board, depth as nat, best_idx as int),
                forall|k: int| 0 <= k < i ==> root_score(*board, depth as nat, k) <= best_score,
                forall|k: int| 0 <= k < best_idx ==> root_score(*board, depth as nat, k) < best_score,
            decreases moves@.len() - i,
        {
            let mv = moves[i];
            assert(legal_moves_of(*board).contains(mv)) by {
                assert(legal_moves_of(*board)[i as int] == mv);
            }
            let child = after(board, mv);
            proof {
                lemma_minimax_value_bounded(child, cd as nat, false, color);
            }
            let score = Self::minimax(&child, cd, i32::MIN, i32::MAX, false, color);
            if score > best_score {
                best_score = score;
                best_idx = i;
            }
            i = i + 1;
        }
        let m = moves[best_idx];
        assert(is_first_best(*board, depth as nat, best_idx as int));
        proof {
            if depth <= 1 {
                lemma_best_takes_mate(*board, depth as nat, best_idx as int);
            }
        }
        assert(legal_moves_of(*board).contains(m)) by {
            assert(legal_moves_of(*board)[best_idx as int] == m);
        }
        Ok(m)
    }
}

} // verus!
