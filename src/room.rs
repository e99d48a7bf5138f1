use vstd::prelude::*;
use vstd::string::StringExecFns;
use crate::board::{Board, BoardKind, BoardView, Cell, Move, Symbol};

verus! {

/// The result of a move that was applied.
#[derive(Clone, Copy, Debug, PartialEq, Eq, Structural)]
pub enum Outcome {
    /// The game goes on.
    Continue,
    /// The player with this symbol has four in a row.
    Win(Symbol),
}

/// Why a move was refused; a refused move changes nothing.
#[derive(Clone, Copy, Debug, PartialEq, Eq, Structural)]
pub enum MoveRejected {
    /// The other symbol holds the turn.
    NotYourTurn,
    /// The move is out of the grid, onto a taken cell, or into a full column.
    IllegalMove,
}

/// Seating refused: two players are already seated.
#[derive(Clone, Copy, Debug, PartialEq, Eq, Structural)]
pub struct RoomFull;

/// A seated player: the symbol it plays and where it connected from, kept
/// for diagnostics only.
#[derive(Debug)]
pub struct Player {
    pub symbol: Symbol,
    pub address: String,
}

/// The mathematical model of a room.
pub struct RoomView {
    pub board: BoardView,
    /// The symbol that may move next.
    pub turn: Symbol,
    /// The symbols of the seated players, in the order they were seated.
    pub seated: Seq<Symbol>,
}

/// The symbol that the player seated `n`-th (from zero) receives.
pub open spec fn symbol_for_seat(n: int) -> Symbol {
    if n == 0 {
        Symbol::A
    } else {
        Symbol::B
    }
}

impl RoomView {
    pub open spec fn wf(self) -> bool {
        &&& self.board.wf()
        &&& self.seated.len() <= 2
        &&& forall|i: int| 0 <= i < self.seated.len() ==> #[trigger] self.seated[i] == symbol_for_seat(i)
    }

    /// What an attempt by `s` to play `m` does: it is refused when `s` does
    /// not hold the turn or when the move is not legal, and otherwise fills
    /// the move's cell, hands the turn to the other symbol and reports
    /// whether `s` has now won.
    pub open spec fn step(self, s: Symbol, m: Move) -> (RoomView, Result<Outcome, MoveRejected>) {
        if s != self.turn {
            (self, Err(MoveRejected::NotYourTurn))
        } else if !self.board.legal(m) {
            (self, Err(MoveRejected::IllegalMove))
        } else {
            let b = self.board.placed(m, s);
            (
                RoomView { board: b, turn: s.spec_other(), ..self },
                Ok(if b.wins(s) { Outcome::Win(s) } else { Outcome::Continue }),
            )
        }
    }

    /// What seating a new connection does.
    pub open spec fn seat(self) -> (RoomView, Result<Symbol, RoomFull>) {
        if self.seated.len() < 2 {
            let s = symbol_for_seat(self.seated.len() as int);
            (RoomView { seated: self.seated.push(s), ..self }, Ok(s))
        } else {
            (self, Err(RoomFull))
        }
    }
}

/// The number of newlines that precede each rendering, to clear a terminal.
pub const CLEAR_LINES: usize = 49;

/// The glyph that shows a cell.
pub open spec fn glyph(c: Cell) -> char {
    match c {
        Cell::Empty => '+',
        Cell::Taken(Symbol::A) => 'X',
        Cell::Taken(Symbol::B) => 'O',
    }
}

/// One row of the grid as text, ended by a newline.
pub open spec fn render_row(row: Seq<Cell>) -> Seq<char> {
    row.map_values(|c: Cell| glyph(c)).push('\n')
}

/// The rows of the grid as text, top row first.
pub open spec fn render_grid(grid: Seq<Seq<Cell>>) -> Seq<char>
    decreases grid.len(),
{
    if grid.len() == 0 {
        Seq::empty()
    } else {
        render_grid(grid.drop_last()) + render_row(grid.last())
    }
}

/// The full rendering of a board: blank lines, then the grid.
pub open spec fn render(b: BoardView) -> Seq<char> {
    Seq::new(CLEAR_LINES as nat, |i: int| '\n') + render_grid(b.grid)
}

/// One game: the board, the turn, and up to two seated players. Every change
/// goes through its methods; a caller shares it behind one lock.
pub struct GameRoom {
    board: Board,
    turn: Symbol,
    players: Vec<Player>,
}

impl View for GameRoom {
    type V = RoomView;

    closed spec fn view(&self) -> RoomView {
        RoomView {
            board: self.board@,
            turn: self.turn,
            seated: self.players@.map_values(|p: Player| p.symbol),
        }
    }
}

impl GameRoom {
    pub closed spec fn wf(&self) -> bool {
        &&& self.board.wf()
        &&& self@.wf()
    }

    /// The players seated so far, in seating order.
    pub closed spec fn roster(&self) -> Seq<Player> {
        self.players@
    }

    /// An empty room around an empty board of the given variant and size;
    /// symbol A moves first.
    pub fn new(kind: BoardKind, rows: usize, cols: usize) -> (r: GameRoom)
        ensures
            r.wf(),
            r@.wf(),
            r@.board.kind == kind,
            r@.board.rows == rows,
            r@.board.cols == cols,
            forall|i: int, j: int| r@.board.in_bounds(i, j) ==> r@.board.cell(i, j) == Cell::Empty,
            r@.turn == Symbol::A,
            r@.seated.len() == 0,
    {
        let r = GameRoom { board: Board::new(kind, rows, cols), turn: Symbol::A, players: Vec::new() };
        assert(r@.seated =~= Seq::<Symbol>::empty());
        r
    }

    /// The board as it stands.
    pub fn board(&self) -> (r: &Board)
        requires
            self.wf(),
        ensures
            r.wf(),
            r@.wf(),
            r@ == self@.board,
    {
        &self.board
    }

    /// The symbol that may move next.
    pub fn turn(&self) -> (r: Symbol)
        ensures
            r == self@.turn,
    {
        self.turn
    }

    /// Whether `s` holds the turn.
    pub fn is_turn_of(&self, s: Symbol) -> (r: bool)
        ensures
            r == (s == self@.turn),
    {
        self.turn == s
    }

    /// Every room that its methods produce has a well-formed model.
    pub proof fn lemma_view_wf(&self)
        requires
            self.wf(),
        ensures
            self@.wf(),
    {
    }

    /// The players seated so far, in seating order, each with the symbol of
    /// its seat.
    pub fn players(&self) -> (r: &Vec<Player>)
        requires
            self.wf(),
        ensures
            r@ == self.roster(),
            r@.len() == self@.seated.len(),
            forall|i: int| 0 <= i < r@.len() ==> (#[trigger] r@[i]).symbol == self@.seated[i],
    {
        &self.players
    }

    /// How many players are seated.
    pub fn player_count(&self) -> (r: usize)
        ensures
            r == self@.seated.len(),
    {
        self.players.len()
    }

    /// Seats a new connection: symbol A for the first, B for the second,
    /// and `RoomFull` for any later one, which leaves the room unchanged.
    pub fn seat(&mut self, address: String) -> (r: Result<Symbol, RoomFull>)
        requires
            old(self).wf(),
        ensures
            final(self).wf(),
            final(self)@.wf(),
            (final(self)@, r) == old(self)@.seat(),
            r is Ok ==> final(self).roster() == old(self).roster().push(
                Player { symbol: r->Ok_0, address },
            ),
            r is Err ==> final(self).roster() == old(self).roster(),
    {
        if self.players.len() < 2 {
            let s = if self.players.len() == 0 {
                Symbol::A
            } else {
                Symbol::B
            };
            let ghost before = self.players@;
            self.players.push(Player { symbol: s, address });
            assert(self@.seated =~= before.map_values(|p: Player| p.symbol).push(s));
            Ok(s)
        } else {
            Err(RoomFull)
        }
    }

    /// Applies `m` for the symbol that holds the turn, then hands the turn to
    /// the other symbol. An illegal move is refused with a message and
    /// changes nothing.
    pub fn update_game_state(&mut self, m: Move) -> (r: Result<(), String>)
        requires
            old(self).wf(),
        ensures
            final(self).wf(),
            final(self)@.wf(),
            final(self).roster() == old(self).roster(),
            r is Ok <==> old(self)@.board.legal(m),
            r is Ok ==> final(self)@ == (RoomView {
                board: old(self)@.board.placed(m, old(self)@.turn),
                turn: old(self)@.turn.spec_other(),
                ..old(self)@
            }),
            r is Err ==> final(self)@ == old(self)@ && r->Err_0@ == illegal_move_text(old(self)@.board.kind),
    {
        if !self.board.is_legal(m) {
            return Err(illegal_move_message(self.board.kind()));
        }
        let s = self.turn;
        self.board.apply(m, s);
        self.turn = s.other();
        Ok(())
    }

    /// Attempts a move by `s`. The whole check, placement, turn change and
    /// win test happen in this one call, so a caller holding the room's lock
    /// never exposes a half-made move.
    pub fn attempt_move(&mut self, s: Symbol, m: Move) -> (r: Result<Outcome, MoveRejected>)
        requires
            old(self).wf(),
        ensures
            final(self).wf(),
            final(self)@.wf(),
            final(self).roster() == old(self).roster(),
            (final(self)@, r) == old(self)@.step(s, m),
    {
        if self.turn != s {
            return Err(MoveRejected::NotYourTurn);
        }
        match self.update_game_state(m) {
            Ok(()) => {
                if self.board.has_won(s) {
                    Ok(Outcome::Win(s))
                } else {
                    Ok(Outcome::Continue)
                }
            },
            Err(_) => Err(MoveRejected::IllegalMove),
        }
    }

    /// The board as text: blank lines to clear a terminal, then one line per
    /// row with `+` for an empty cell, `X` for symbol A and `O` for symbol B.
    pub fn get_game_state(&self) -> (r: String)
        requires
            self.wf(),
        ensures
            r@ == render(self@.board),
    {
        let mut out = String::new();
        let mut i: usize = 0;
        while i < CLEAR_LINES
            invariant
                i <= CLEAR_LINES,
                out@ == Seq::new(i as nat, |k: int| '\n'),
            decreases CLEAR_LINES - i,
        {
            proof {
                reveal_strlit("\n");
            }
            out.append("\n");
            i = i + 1;
            assert(out@ =~= Seq::new(i as nat, |k: int| '\n'));
        }
        let ghost head = out@;
        let ghost grid = self@.board.grid;
        let mut r: usize = 0;
        while r < self.board.rows()
            invariant
                self.wf(),
                grid == self@.board.grid,
                grid.len() == self@.board.rows,
                r <= self@.board.rows,
                head == Seq::new(CLEAR_LINES as nat, |k: int| '\n'),
                out@ == head + render_grid(grid.take(r as int)),
            decreases self@.board.rows - r,
        {
            let row = &self.board.row(r);
            let ghost line_start = out@;
            let mut c: usize = 0;
            while c < row.len()
                invariant
                    c <= row@.len(),
                    out@ == line_start + row@.take(c as int).map_values(|x: Cell| glyph(x)),
                decreases row@.len() - c,
            {
                proof {
                    reveal_strlit("+");
                    reveal_strlit("X");
                    reveal_strlit("O");
                }
                match row[c] {
                    Cell::Empty => out.append("+"),
                    Cell::Taken(Symbol::A) => out.append("X"),
                    Cell::Taken(Symbol::B) => out.append("O"),
                }
                c = c + 1;
                assert(row@.take(c as int).map_values(|x: Cell| glyph(x)) =~= row@.take(
                    c - 1,
                ).map_values(|x: Cell| glyph(x)).push(glyph(row@[c - 1])));
            }
            proof {
                reveal_strlit("\n");
            }
            out.append("\n");
            r = r + 1;
            proof {
                assert(row@.take(row@.len() as int) =~= row@);
                assert(grid.take(r as int).drop_last() =~= grid.take(r - 1));
                assert(out@ =~= head + render_grid(grid.take(r as int)));
            }
        }
        assert(grid.take(r as int) =~= grid);
        out
    }
}

/// The message that refuses an illegal move on a board of the given variant.
pub open spec fn illegal_move_text(kind: BoardKind) -> Seq<char> {
    match kind {
        BoardKind::Gravity => "Jogada inválida. Escolha uma coluna vazia."@,
        BoardKind::Free => "Jogada inválida. Escolha uma casa vazia."@,
    }
}

pub(crate) fn illegal_move_message(kind: BoardKind) -> (r: String)
    ensures
        r@ == illegal_move_text(kind),
{
    match kind {
        BoardKind::Gravity => String::from_str("Jogada inválida. Escolha uma coluna vazia."),
        BoardKind::Free => String::from_str("Jogada inválida. Escolha uma casa vazia."),
    }
}

} // verus!
