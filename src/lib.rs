//! A two-player, turn-based board-game room: the board model, the room that
//! serialises every move, and the decisions a per-connection session makes.

mod board;
mod room;
mod session;
pub mod laws;

pub use board::{Board, BoardKind, BoardView, Cell, Move, Symbol};
pub use room::{GameRoom, MoveRejected, Outcome, Player, RoomFull, RoomView, CLEAR_LINES};
pub use session::{
    ends_session, handle_line, parse_move, reply_message, room_full_message, ParseError, Reply,
};
