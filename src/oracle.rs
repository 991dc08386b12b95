//! The rules engine that the search consults: board state, legal moves,
//! move application and game status all come from the `chess` crate.
//!
//! A `chess::Board` is opaque to the verifier. What the engine learns of a
//! board it learns through the functions below, whose results are named by
//! uninterpreted spec functions: a board's answers depend on the board alone.
use crate::position::{board_sound, occupants_of, Occupant};
use vstd::prelude::*;

verus! {

#[verifier::external_type_specification]
#[verifier::external_body]
pub struct ExBoard(chess::Board);

#[verifier::external_type_specification]
#[verifier::external_body]
pub struct ExChessMove(chess::ChessMove);

/// One of the two sides of the game.
#[derive(Clone, Copy, Debug, PartialEq, Eq, Structural)]
pub enum Side {
    White,
    Black,
}

/// The kind of a piece, without its colour.
#[derive(Clone, Copy, Debug, PartialEq, Eq, Structural)]
pub enum PieceKind {
    Pawn,
    Knight,
    Bishop,
    Rook,
    Queen,
    King,
}

/// Whether the game goes on, or how it has ended.
#[derive(Clone, Copy, Debug, PartialEq, Eq, Structural)]
pub enum GameStatus {
    Ongoing,
    Stalemate,
    Checkmate,
}

impl Side {
    pub open spec fn opposite_spec(self) -> Side {
        match self {
            Side::White => Side::Black,
            Side::Black => Side::White,
        }
    }

    /// The other side.
    pub fn opposite(self) -> (r: Side)
        ensures
            r == self.opposite_spec(),
    {
        match self {
            Side::White => Side::Black,
            Side::Black => Side::White,
        }
    }
}

/// The kind of piece on square `sq` (0 = a1, 1 = b1, ..., 63 = h8).
pub uninterp spec fn piece_of(b: chess::Board, sq: int) -> Option<PieceKind>;

/// The colour of the piece on square `sq`.
pub uninterp spec fn color_of(b: chess::Board, sq: int) -> Option<Side>;

/// The side whose turn it is.
pub uninterp spec fn side_to_move_of(b: chess::Board) -> Side;

/// Whether the game on the board goes on or has ended.
pub uninterp spec fn status_of(b: chess::Board) -> GameStatus;

/// The legal moves of the board, in the order the move generator yields them.
pub uninterp spec fn legal_moves_of(b: chess::Board) -> Seq<chess::ChessMove>;

/// The board after a move has been played on it.
pub uninterp spec fn after_of(b: chess::Board, m: chess::ChessMove) -> chess::Board;

/// Whether the chess crate's own sanity check passes: pieces do not
/// overlap, each side has one king, the kings do not touch, the side not to
/// move is not in check, and castling rights and the en passant square
/// agree with the pieces.
pub uninterp spec fn sane_of(b: chess::Board) -> bool;

/// Relies on chess::Board::is_sane: the crate's sanity check of a board.
#[verifier::external_body]
pub(crate) fn is_sane(b: &chess::Board) -> (r: bool)
    ensures
        r == sane_of(*b),
{
    b.is_sane()
}

/// Relies on chess::Board::piece_on: which kind of piece stands on a square.
#[verifier::external_body]
pub(crate) fn piece_on(b: &chess::Board, sq: u8) -> (r: Option<PieceKind>)
    requires
        sq < 64,
    ensures
        r == piece_of(*b, sq as int),
{
    match b.piece_on(chess::ALL_SQUARES[sq as usize]) {
        None => None,
        Some(chess::Piece::Pawn) => Some(PieceKind::Pawn),
        Some(chess::Piece::Knight) => Some(PieceKind::Knight),
        Some(chess::Piece::Bishop) => Some(PieceKind::Bishop),
        Some(chess::Piece::Rook) => Some(PieceKind::Rook),
        Some(chess::Piece::Queen) => Some(PieceKind::Queen),
        Some(chess::Piece::King) => Some(PieceKind::King),
    }
}

/// Relies on chess::Board::color_on: the colour of the piece on a square.
#[verifier::external_body]
pub(crate) fn color_on(b: &chess::Board, sq: u8) -> (r: Option<Side>)
    requires
        sq < 64,
    ensures
        r == color_of(*b, sq as int),
{
    match b.color_on(chess::ALL_SQUARES[sq as usize]) {
        None => None,
        Some(chess::Color::White) => Some(Side::White),
        Some(chess::Color::Black) => Some(Side::Black),
    }
}

/// Relies on chess::Board::side_to_move.
#[verifier::external_body]
pub(crate) fn side_to_move(b: &chess::Board) -> (r: Side)
    ensures
        r == side_to_move_of(*b),
{
    match b.side_to_move() {
        chess::Color::White => Side::White,
        chess::Color::Black => Side::Black,
    }
}

/// Relies on chess::Board::status: ongoing exactly when the move generator
/// yields a move; its generator needs a sound board.
#[verifier::external_body]
pub(crate) fn status(b: &chess::Board) -> (r: GameStatus)
    requires
        board_sound(*b),
    ensures
        r == status_of(*b),
        (r == GameStatus::Ongoing) == (legal_moves_of(*b).len() > 0),
{
    match b.status() {
        chess::BoardStatus::Ongoing => GameStatus::Ongoing,
        chess::BoardStatus::Stalemate => GameStatus::Stalemate,
        chess::BoardStatus::Checkmate => GameStatus::Checkmate,
    }
}

/// Relies on chess::MoveGen::new_legal: the legal moves of a board, in the
/// generator's order. The generator holds one entry per piece that can
/// move, so it needs a sound board.
#[verifier::external_body]
pub(crate) fn legal_moves(b: &chess::Board) -> (r: Vec<chess::ChessMove>)
    requires
        board_sound(*b),
    ensures
        r@ == legal_moves_of(*b),
{
    chess::MoveGen::new_legal(b).collect()
}

/// Relies on chess::Board::make_move_new: the board after a legal move,
/// with the other side to move. On a sane board the side not to move is not
/// in check, so no legal move captures a king (where the crate panics).
#[verifier::external_body]
pub(crate) fn after(b: &chess::Board, m: chess::ChessMove) -> (r: chess::Board)
    requires
        board_sound(*b),
        legal_moves_of(*b).contains(m),
    ensures
        r == after_of(*b, m),
        side_to_move_of(r) == side_to_move_of(*b).opposite_spec(),
{
    b.make_move_new(m)
}

/// The move from square `from` to square `to`, with an optional promotion.
pub uninterp spec fn move_of(from: int, to: int, promotion: Option<PieceKind>) -> chess::ChessMove;

/// The board written in Forsyth-Edwards notation.
pub uninterp spec fn fen_of(b: chess::Board) -> Seq<char>;

/// Relies on chess::ChessMove::new: a move from its two squares and its
/// promotion piece.
#[verifier::external_body]
pub(crate) fn make_chess_move(from: u8, to: u8, promotion: Option<PieceKind>) -> (r: chess::ChessMove)
    requires
        from < 64,
        to < 64,
    ensures
        r == move_of(from as int, to as int, promotion),
{
    let piece = match promotion {
        None => None,
        Some(PieceKind::Pawn) => Some(chess::Piece::Pawn),
        Some(PieceKind::Knight) => Some(chess::Piece::Knight),
        Some(PieceKind::Bishop) => Some(chess::Piece::Bishop),
        Some(PieceKind::Rook) => Some(chess::Piece::Rook),
        Some(PieceKind::Queen) => Some(chess::Piece::Queen),
        Some(PieceKind::King) => Some(chess::Piece::King),
    };
    chess::ChessMove::new(chess::ALL_SQUARES[from as usize], chess::ALL_SQUARES[to as usize], piece)
}

/// Relies on chess::Board::legal: whether the move generator yields the move.
#[verifier::external_body]
pub(crate) fn is_legal(b: &chess::Board, m: chess::ChessMove) -> (r: bool)
    requires
        board_sound(*b),
    ensures
        r == legal_moves_of(*b).contains(m),
{
    b.legal(m)
}

/// The piece that stands on a square in the standard starting position.
pub open spec fn start_occupant(sq: int) -> Occupant {
    let file = sq % 8;
    let back = if file == 0 || file == 7 {
        PieceKind::Rook
    } else if file == 1 || file == 6 {
        PieceKind::Knight
    } else if file == 2 || file == 5 {
        PieceKind::Bishop
    } else if file == 3 {
        PieceKind::Queen
    } else {
        PieceKind::King
    };
    if sq / 8 == 0 {
        Some((back, Side::White))
    } else if sq / 8 == 1 {
        Some((PieceKind::Pawn, Side::White))
    } else if sq / 8 == 6 {
        Some((PieceKind::Pawn, Side::Black))
    } else if sq / 8 == 7 {
        Some((back, Side::Black))
    } else {
        None
    }
}

/// The standard starting position in Forsyth-Edwards notation.
pub open spec fn start_fen() -> Seq<char> {
    "rnbqkbnr/pppppppp/8/8/8/8/PPPPPPPP/RNBQKBNR w KQkq - 0 1"@
}

/// Relies on chess::Board's Default impl, which reads the standard starting
/// position from its Forsyth-Edwards notation: White to move, 20 legal
/// moves, and the board's Display writes that notation back.
#[verifier::external_body]
pub(crate) fn starting_board() -> (r: chess::Board)
    ensures
        side_to_move_of(r) == Side::White,
        occupants_of(r) == Seq::new(64, |sq: int| start_occupant(sq)),
        board_sound(r),
        legal_moves_of(r).len() == 20,
        status_of(r) == GameStatus::Ongoing,
        fen_of(r) == start_fen(),
{
    chess::Board::default()
}

/// Relies on chess::Board's Display impl: the board in Forsyth-Edwards notation.
#[verifier::external_body]
pub(crate) fn board_fen(b: &chess::Board) -> (r: String)
    ensures
        r@ == fen_of(*b),
{
    b.to_string()
}

} // verus!
