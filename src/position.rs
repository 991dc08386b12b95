//! What a board holds, square by square, and the boards that the engine
//! accepts: those whose pieces the move generator can handle, as every
//! position reached by play from the start is.
use crate::oracle::{color_of, color_on, is_sane, piece_of, piece_on, sane_of, PieceKind, Side};
use vstd::prelude::*;

verus! {

/// A piece and its colour, as found on a square.
pub type Occupant = Option<(PieceKind, Side)>;

/// A square's content as the board reports it: a piece counts when both its
/// kind and its colour are known.
pub open spec fn occupant(k: Option<PieceKind>, c: Option<Side>) -> Occupant {
    match (k, c) {
        (Some(k), Some(c)) => Some((k, c)),
        _ => None,
    }
}

/// The 64 squares of a board, a1 first and h8 last.
pub open spec fn occupants_of(b: chess::Board) -> Seq<Occupant> {
    Seq::new(64, |sq: int| occupant(piece_of(b, sq), color_of(b, sq)))
}

/// The number of pieces of side `c` among the first `n` squares.
pub open spec fn side_count(s: Seq<Occupant>, c: Side, n: int) -> int
    decreases n,
{
    if n <= 0 {
        0
    } else {
        side_count(s, c, n - 1) + if s[n - 1] matches Some((_, d)) && d == c { 1int } else { 0 }
    }
}

/// The number of kings of side `c` among the first `n` squares.
pub open spec fn king_count(s: Seq<Occupant>, c: Side, n: int) -> int
    decreases n,
{
    if n <= 0 {
        0
    } else {
        king_count(s, c, n - 1) + if s[n - 1] == Some((PieceKind::King, c)) { 1int } else { 0 }
    }
}

/// Whether a square holds a pawn.
pub open spec fn is_pawn(o: Occupant) -> bool {
    o matches Some((k, _)) && k == PieceKind::Pawn
}

/// The first and the eighth rank.
pub open spec fn on_back_rank(sq: int) -> bool {
    sq < 8 || sq >= 56
}

/// A board that the move generator handles: it passes the chess crate's
/// sanity check, every piece has a colour, each side has exactly one king
/// and at most 16 pieces, and no pawn stands on the first or the eighth rank.
pub open spec fn board_sound(b: chess::Board) -> bool {
    let s = occupants_of(b);
    &&& sane_of(b)
    &&& forall|sq: int| 0 <= sq < 64 ==> (piece_of(b, sq) is Some) == (color_of(b, sq) is Some)
    &&& side_count(s, Side::White, 64) <= 16
    &&& side_count(s, Side::Black, 64) <= 16
    &&& king_count(s, Side::White, 64) == 1
    &&& king_count(s, Side::Black, 64) == 1
    &&& forall|sq: int| 0 <= sq < 64 && on_back_rank(sq) ==> !is_pawn(#[trigger] s[sq])
}

/// The content of each square of a board, a1 first.
pub fn board_occupants(board: &chess::Board) -> (r: Vec<Occupant>)
    ensures
        r@ == occupants_of(*board),
{
    let mut squares: Vec<Occupant> = Vec::new();
    let mut sq: u8 = 0;
    while sq < 64
        invariant
            sq <= 64,
            squares@.len() == sq as int,
            forall|j: int|
                0 <= j < sq ==> squares@[j] == occupant(piece_of(*board, j), color_of(*board, j)),
        decreases 64 - sq,
    {
        let k = piece_on(board, sq);
        let c = color_on(board, sq);
        let o: Occupant = match (k, c) {
            (Some(k), Some(c)) => Some((k, c)),
            _ => None,
        };
        squares.push(o);
        sq = sq + 1;
    }
    assert(squares@ =~= occupants_of(*board));
    squares
}

/// Whether the engine accepts the board.
pub fn is_sound_board(board: &chess::Board) -> (r: bool)
    ensures
        r == board_sound(*board),
{
    let mut consistent = true;
    let mut sq: u8 = 0;
    while sq < 64
        invariant
            sq <= 64,
            consistent == forall|j: int|
                0 <= j < sq ==> (piece_of(*board, j) is Some) == (color_of(*board, j) is Some),
        decreases 64 - sq,
    {
        let k = piece_on(board, sq);
        let c = color_on(board, sq);
        if k.is_some() != c.is_some() {
            consistent = false;
        }
        sq = sq + 1;
    }
    let s = board_occupants(board);
    let mut white: u32 = 0;
    let mut black: u32 = 0;
    let mut white_kings: u32 = 0;
    let mut black_kings: u32 = 0;
    let mut no_back_pawn = true;
    let mut i: usize = 0;
    while i < 64
        invariant
            i <= 64,
            s@.len() == 64,
            white <= i && black <= i && white_kings <= i && black_kings <= i,
            white == side_count(s@, Side::White, i as int),
            black == side_count(s@, Side::Black, i as int),
            white_kings == king_count(s@, Side::White, i as int),
            black_kings == king_count(s@, Side::Black, i as int),
            no_back_pawn == forall|j: int| 0 <= j < i && on_back_rank(j) ==> !is_pawn(#[trigger] s@[j]),
        decreases 64 - i,
    {
        match s[i] {
            None => {},
            Some((k, c)) => {
                if c == Side::White {
                    white = white + 1;
                    if k == PieceKind::King {
                        white_kings = white_kings + 1;
                    }
                } else {
                    black = black + 1;
                    if k == PieceKind::King {
                        black_kings = black_kings + 1;
                    }
                }
                if k == PieceKind::Pawn && (i < 8 || i >= 56) {
                    no_back_pawn = false;
                }
            },
        }
        i = i + 1;
    }
    is_sane(board) && consistent && white <= 16 && black <= 16 && white_kings == 1 && black_kings == 1 && no_back_pawn
}

} // verus!
