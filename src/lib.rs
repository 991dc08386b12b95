//! A fixed-depth alpha-beta chess engine over the `chess` crate's rules,
//! with a small game object that holds a position, takes a player's moves
//! and answers with the engine's.
pub mod minimax;
pub mod oracle;
pub mod position;

use crate::minimax::{is_first_best, MiniMax, SearchError};
use crate::oracle::{
    after, after_of, board_fen, fen_of, is_legal, legal_moves_of, make_chess_move, move_of,
    piece_of, piece_on, start_fen, start_occupant, starting_board, status, status_of, GameStatus,
    PieceKind, Side, side_to_move_of,
};
use crate::position::{board_sound, is_sound_board, occupants_of};
use vstd::prelude::*;
use vstd::string::StringExecFns;

verus! {

/// The depth to which the engine searches when it plays.
pub const ENGINE_DEPTH: u8 = 3;

/// The square that a two-letter name such as `e4` denotes (0 = a1, 63 = h8),
/// read from its first two characters.
pub open spec fn square_index(s: Seq<char>) -> Option<int> {
    if s.len() >= 2 && 'a' <= s[0] && s[0] <= 'h' && '1' <= s[1] && s[1] <= '8' {
        Some(8 * (s[1] as int - '1' as int) + (s[0] as int - 'a' as int))
    } else {
        None
    }
}

/// The square a name denotes, a1 when it denotes none.
pub open spec fn square_or_a1(s: Seq<char>) -> int {
    match square_index(s) {
        Some(i) => i,
        None => 0,
    }
}

/// The square that a name denotes, if any.
pub fn parse_square(s: &str) -> (r: Option<u8>)
    ensures
        r matches Some(i) ==> i < 64,
        r matches Some(i) ==> square_index(s@) == Some(i as int),
        r is None ==> square_index(s@) is None,
{
    if s.unicode_len() < 2 {
        return None;
    }
    let f = s.get_char(0);
    let k = s.get_char(1);
    if 'a' <= f && f <= 'h' && '1' <= k && k <= '8' {
        let file = (f as u32 - 'a' as u32) as u8;
        let rank = (k as u32 - '1' as u32) as u8;
        Some(8 * rank + file)
    } else {
        None
    }
}

/// The promotion that a player's move asks for when it is checked: a queen
/// for a pawn that reaches the eighth rank.
pub open spec fn checked_promotion(b: chess::Board, from: int, to: int) -> Option<PieceKind> {
    if piece_of(b, from) == Some(PieceKind::Pawn) && to / 8 == 7 {
        Some(PieceKind::Queen)
    } else {
        None
    }
}

/// The promotion that a player's move asks for when it is played: a queen
/// for a pawn that reaches the first or the eighth rank.
pub open spec fn played_promotion(b: chess::Board, from: int, to: int) -> Option<PieceKind> {
    if piece_of(b, from) == Some(PieceKind::Pawn) && (to / 8 == 7 || to / 8 == 0) {
        Some(PieceKind::Queen)
    } else {
        None
    }
}

/// The move that a pair of square names stands for on a board.
pub open spec fn named_move(b: chess::Board, from: Seq<char>, to: Seq<char>, played: bool) -> chess::ChessMove {
    let f = square_or_a1(from);
    let t = square_or_a1(to);
    move_of(f, t, if played { played_promotion(b, f, t) } else { checked_promotion(b, f, t) })
}

/// The name of a game status.
pub open spec fn status_name_spec(st: GameStatus) -> Seq<char> {
    match st {
        GameStatus::Ongoing => "Ongoing"@,
        GameStatus::Stalemate => "Stalemate"@,
        GameStatus::Checkmate => "Checkmate"@,
    }
}

/// The name of a game status: `Ongoing`, `Stalemate` or `Checkmate`.
pub fn status_name(st: GameStatus) -> (r: String)
    ensures
        r@ == status_name_spec(st),
{
    match st {
        GameStatus::Ongoing => String::from_str("Ongoing"),
        GameStatus::Stalemate => String::from_str("Stalemate"),
        GameStatus::Checkmate => String::from_str("Checkmate"),
    }
}

/// A game in progress: the position that the player and the engine play on.
pub struct Chess {
    board: chess::Board,
}

impl Chess {
    /// The position of the game.
    pub closed spec fn position(&self) -> chess::Board {
        self.board
    }

    /// The game's position is one that the engine accepts.
    pub open spec fn wf(&self) -> bool {
        board_sound(self.position())
    }

    /// The game stands at the standard starting position: its squares hold
    /// the starting pieces, White is to move with 20 legal moves, and the
    /// position reads as the starting notation.
    pub open spec fn at_start(&self) -> bool {
        &&& self.wf()
        &&& occupants_of(self.position()) == Seq::new(64, |sq: int| start_occupant(sq))
        &&& side_to_move_of(self.position()) == Side::White
        &&& status_of(self.position()) == GameStatus::Ongoing
        &&& legal_moves_of(self.position()).len() == 20
        &&& fen_of(self.position()) == start_fen()
    }

    /// A game at the standard starting position.
    pub fn new() -> (r: Chess)
        ensures
            r.at_start(),
    {
        Chess { board: starting_board() }
    }

    /// The position in Forsyth-Edwards notation.
    pub fn to_fen(&self) -> (r: String)
        ensures
            r@ == fen_of(self.position()),
    {
        board_fen(&self.board)
    }

    /// The move that two square names stand for on this board.
    fn read_move(&self, from: &String, to: &String, played: bool) -> (r: chess::ChessMove)
        requires
            self.wf(),
        ensures
            r == named_move(self.position(), from@, to@, played),
    {
        let f: u8 = match parse_square(from.as_str()) {
            Some(i) => i,
            None => 0,
        };
        let t: u8 = match parse_square(to.as_str()) {
            Some(i) => i,
            None => 0,
        };
        let is_pawn = piece_on(&self.board, f) == Some(PieceKind::Pawn);
        let promotion = if is_pawn && (t / 8 == 7 || (played && t / 8 == 0)) {
            Some(PieceKind::Queen)
        } else {
            None
        };
        make_chess_move(f, t, promotion)
    }

    /// Whether the move from the first named square to the second is legal;
    /// a pawn that reaches the eighth rank is taken to become a queen.
    pub fn validate_move(&self, chess_move: Vec<String>) -> (r: bool)
        requires
            self.wf(),
            chess_move@.len() >= 2,
        ensures
            r == legal_moves_of(self.position()).contains(
                named_move(self.position(), chess_move@[0]@, chess_move@[1]@, false),
            ),
    {
        let m = self.read_move(&chess_move[0], &chess_move[1], false);
        is_legal(&self.board, m)
    }

    /// Plays the move from the first named square to the second, a pawn that
    /// reaches the last rank becoming a queen, when it is legal and leads to
    /// a board that the engine accepts; otherwise the game stays as it is.
    /// Returns the name of the game's status.
    pub fn make_move(&mut self, chess_move: Vec<String>) -> (r: String)
        requires
            old(self).wf(),
            chess_move@.len() >= 2,
        ensures
            final(self).wf(),
            ({
                let m = named_move(old(self).position(), chess_move@[0]@, chess_move@[1]@, true);
                let next = after_of(old(self).position(), m);
                final(self).position() == if legal_moves_of(old(self).position()).contains(m)
                    && board_sound(next) {
                    next
                } else {
                    old(self).position()
                }
            }),
            final(self).position() != old(self).position() ==> side_to_move_of(final(self).position())
                == side_to_move_of(old(self).position()).opposite_spec(),
            r@ == status_name_spec(status_of(final(self).position())),
    {
        let m = self.read_move(&chess_move[0], &chess_move[1], true);
        if is_legal(&self.board, m) {
            let next = after(&self.board, m);
            if is_sound_board(&next) {
                self.board = next;
            }
        }
        status_name(status(&self.board))
    }

    /// Lets the engine play its best move at a search depth of
    /// `ENGINE_DEPTH`, when it leads to a board that the engine accepts; a
    /// finished game is left as it is. Returns the name of the game's status.
    pub fn make_engine_move(&mut self) -> (r: String)
        requires
            old(self).wf(),
        ensures
            final(self).wf(),
            legal_moves_of(old(self).position()).len() == 0 ==> final(self).position()
                == old(self).position(),
            legal_moves_of(old(self).position()).len() > 0 ==> exists|j: int|
                is_first_best(old(self).position(), ENGINE_DEPTH as nat, j) && ({
                    let next = after_of(old(self).position(), #[trigger] legal_moves_of(old(self).position())[j]);
                    final(self).position() == if board_sound(next) {
                        next
                    } else {
                        old(self).position()
                    }
                }),
            final(self).position() != old(self).position() ==> side_to_move_of(final(self).position())
                == side_to_move_of(old(self).position()).opposite_spec(),
            r@ == status_name_spec(status_of(final(self).position())),
    {
        match MiniMax::eval_best_move(&self.board, ENGINE_DEPTH) {
            Ok(m) => {
                let next = after(&self.board, m);
                if is_sound_board(&next) {
                    self.board = next;
                }
            },
            Err(SearchError::NoLegalMoves) => {},
        }
        status_name(status(&self.board))
    }

    /// Returns the game to the standard starting position.
    pub fn reset(&mut self)
        ensures
            final(self).at_start(),
    {
        self.board = starting_board();
    }
}

} // verus!
