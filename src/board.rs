use vstd::prelude::*;

verus! {

/// One of the two markers that identify a player's pieces.
#[derive(Clone, Copy, Debug, PartialEq, Eq, Structural)]
pub enum Symbol {
    A,
    B,
}

impl Symbol {
    /// The symbol of the other player.
    pub open spec fn spec_other(self) -> Symbol {
        match self {
            Symbol::A => Symbol::B,
            Symbol::B => Symbol::A,
        }
    }

    pub fn other(self) -> (r: Symbol)
        ensures
            r == self.spec_other(),
    {
        match self {
            Symbol::A => Symbol::B,
            Symbol::B => Symbol::A,
        }
    }
}

/// The content of one cell of the grid.
#[derive(Clone, Copy, Debug, PartialEq, Eq, Structural)]
pub enum Cell {
    Empty,
    Taken(Symbol),
}

/// The two board variants.
#[derive(Clone, Copy, Debug, PartialEq, Eq, Structural)]
pub enum BoardKind {
    /// A move names a column; the piece falls to the lowest empty row.
    Gravity,
    /// A move names a row and a column; that cell must be empty.
    Free,
}

/// A move as a player submits it.
#[derive(Clone, Copy, Debug, PartialEq, Eq, Structural)]
pub enum Move {
    /// A column of a gravity board.
    Drop { col: usize },
    /// A cell of a free-placement board.
    Place { row: usize, col: usize },
}

/// The mathematical model of a board: its variant, its fixed dimensions and
/// its grid, indexed as `grid[row][col]`, row 0 at the top.
pub struct BoardView {
    pub kind: BoardKind,
    pub rows: nat,
    pub cols: nat,
    pub grid: Seq<Seq<Cell>>,
}

impl BoardView {
    pub open spec fn wf(self) -> bool {
        &&& self.grid.len() == self.rows
        &&& forall|r: int| 0 <= r < self.rows ==> (#[trigger] self.grid[r]).len() == self.cols
    }

    pub open spec fn in_bounds(self, r: int, c: int) -> bool {
        0 <= r < self.rows && 0 <= c < self.cols
    }

    pub open spec fn cell(self, r: int, c: int) -> Cell {
        self.grid[r][c]
    }

    pub open spec fn is_empty_at(self, r: int, c: int) -> bool {
        self.in_bounds(r, c) && self.cell(r, c) == Cell::Empty
    }

    /// A gravity move may go into a column that exists and whose top cell is
    /// empty; a free move may go onto an empty cell of the grid. A move of the
    /// other variant is never legal.
    pub open spec fn legal(self, m: Move) -> bool {
        match (self.kind, m) {
            (BoardKind::Gravity, Move::Drop { col }) => self.is_empty_at(0, col as int),
            (BoardKind::Free, Move::Place { row, col }) => self.is_empty_at(row as int, col as int),
            _ => false,
        }
    }

    /// Row `r` is where a piece dropped into column `c` comes to rest: the
    /// lowest empty cell of that column.
    pub open spec fn lands_at(self, c: int, r: int) -> bool {
        &&& self.is_empty_at(r, c)
        &&& forall|r2: int| r < r2 < self.rows ==> self.cell(r2, c) != Cell::Empty
    }

    /// The cell that a legal move fills.
    pub open spec fn target(self, m: Move) -> (int, int) {
        match m {
            Move::Drop { col } => (choose|r: int| self.lands_at(col as int, r), col as int),
            Move::Place { row, col } => (row as int, col as int),
        }
    }

    /// The board after `s` fills the target cell of `m`.
    pub open spec fn placed(self, m: Move, s: Symbol) -> BoardView {
        let (r, c) = self.target(m);
        BoardView { grid: self.grid.update(r, self.grid[r].update(c, Cell::Taken(s))), ..self }
    }

    /// The four directions a run can take: along a row, down a column, and
    /// down either diagonal. Each run in the opposite direction is the same
    /// run read from its other end.
    pub open spec fn is_direction(dr: int, dc: int) -> bool {
        ||| (dr == 0 && dc == 1)
        ||| (dr == 1 && dc == 0)
        ||| (dr == 1 && dc == 1)
        ||| (dr == -1 && dc == 1)
    }

    /// Four cells of `s` in a row, starting at `(r, c)` and stepping by `(dr, dc)`.
    pub open spec fn run_of(self, s: Symbol, r: int, c: int, dr: int, dc: int) -> bool {
        &&& self.in_bounds(r, c)
        &&& self.in_bounds(r + 3 * dr, c + 3 * dc)
        &&& self.cell(r, c) == Cell::Taken(s)
        &&& self.cell(r + dr, c + dc) == Cell::Taken(s)
        &&& self.cell(r + 2 * dr, c + 2 * dc) == Cell::Taken(s)
        &&& self.cell(r + 3 * dr, c + 3 * dc) == Cell::Taken(s)
    }

    /// Some run of four cells of `s` starts at `(r, c)`.
    pub open spec fn run_starts_at(self, s: Symbol, r: int, c: int) -> bool {
        exists|dr: int, dc: int| Self::is_direction(dr, dc) && #[trigger] self.run_of(s, r, c, dr, dc)
    }

    /// `s` holds four contiguous cells horizontally, vertically or diagonally.
    pub open spec fn wins(self, s: Symbol) -> bool {
        exists|r: int, c: int| #[trigger] self.run_starts_at(s, r, c)
    }
}

/// A fixed-size grid of cells; its dimensions never change after construction.
pub struct Board {
    kind: BoardKind,
    rows: usize,
    cols: usize,
    cells: Vec<Vec<Cell>>,
}

impl View for Board {
    type V = BoardView;

    closed spec fn view(&self) -> BoardView {
        BoardView {
            kind: self.kind,
            rows: self.rows as nat,
            cols: self.cols as nat,
            grid: self.cells@.map_values(|row: Vec<Cell>| row@),
        }
    }
}

impl Board {
    pub closed spec fn wf(&self) -> bool {
        &&& self.cells@.len() == self.rows
        &&& forall|r: int| 0 <= r < self.rows ==> (#[trigger] self.cells@[r])@.len() == self.cols
    }

    /// An empty board of the given variant and dimensions.
    pub fn new(kind: BoardKind, rows: usize, cols: usize) -> (b: Board)
        ensures
            b.wf(),
            b@.wf(),
            b@.kind == kind,
            b@.rows == rows,
            b@.cols == cols,
            forall|r: int, c: int| b@.in_bounds(r, c) ==> b@.cell(r, c) == Cell::Empty,
    {
        let mut cells: Vec<Vec<Cell>> = Vec::new();
        let mut i: usize = 0;
        while i < rows
            invariant
                i <= rows,
                cells@.len() == i,
                forall|r: int| 0 <= r < i ==> (#[trigger] cells@[r])@.len() == cols,
                forall|r: int, c: int|
                    0 <= r < i && 0 <= c < cols ==> #[trigger] cells@[r]@[c] == Cell::Empty,
            decreases rows - i,
        {
            let mut row: Vec<Cell> = Vec::new();
            let mut j: usize = 0;
            while j < cols
                invariant
                    j <= cols,
                    row@.len() == j,
                    forall|c: int| 0 <= c < j ==> #[trigger] row@[c] == Cell::Empty,
                decreases cols - j,
            {
                row.push(Cell::Empty);
                j = j + 1;
            }
            cells.push(row);
            i = i + 1;
        }
        let b = Board { kind, rows, cols, cells };
        assert(b@.wf());
        b
    }

    /// A board that its methods produce has a well-formed model.
    pub proof fn lemma_view_wf(&self)
        requires
            self.wf(),
        ensures
            self@.wf(),
    {
    }

    pub fn kind(&self) -> (r: BoardKind)
        ensures
            r == self@.kind,
    {
        self.kind
    }

    pub fn rows(&self) -> (r: usize)
        ensures
            r == self@.rows,
    {
        self.rows
    }

    pub fn cols(&self) -> (r: usize)
        ensures
            r == self@.cols,
    {
        self.cols
    }

    /// Row `r` of the grid, left to right.
    pub fn row(&self, r: usize) -> (res: &Vec<Cell>)
        requires
            self.wf(),
            r < self@.rows,
        ensures
            res@ == self@.grid[r as int],
            res@.len() == self@.cols,
    {
        &self.cells[r]
    }

    /// Whether `m` may be played on this board.
    pub fn is_legal(&self, m: Move) -> (r: bool)
        requires
            self.wf(),
        ensures
            r == self@.legal(m),
    {
        match (self.kind, m) {
            (BoardKind::Gravity, Move::Drop { col }) => {
                0 < self.rows && col < self.cols && self.cells[0][col] == Cell::Empty
            },
            (BoardKind::Free, Move::Place { row, col }) => {
                row < self.rows && col < self.cols && self.cells[row][col] == Cell::Empty
            },
            _ => false,
        }
    }
    fn holds(&self, r: usize, c: usize, s: Symbol) -> (res: bool)
        requires
            self.wf(),
            r < self@.rows,
            c < self@.cols,
        ensures
            res == (self@.cell(r as int, c as int) == Cell::Taken(s)),
    {
        self.cells[r][c] == Cell::Taken(s)
    }

    /// Whether a run of four cells of `s` starts at `(r, c)`.
    fn run_starts_at(&self, s: Symbol, r: usize, c: usize) -> (res: bool)
        requires
            self.wf(),
            r < self@.rows,
            c < self@.cols,
        ensures
            res == self@.run_starts_at(s, r as int, c as int),
    {
        let ghost v = self@;
        let room_right = 3 < self.cols - c;
        let room_down = 3 < self.rows - r;
        let room_up = r >= 3;
        let across = room_right && self.holds(r, c, s) && self.holds(r, c + 1, s)
            && self.holds(r, c + 2, s) && self.holds(r, c + 3, s);
        let down = room_down && self.holds(r, c, s) && self.holds(r + 1, c, s)
            && self.holds(r + 2, c, s) && self.holds(r + 3, c, s);
        let diag = room_right && room_down && self.holds(r, c, s) && self.holds(r + 1, c + 1, s)
            && self.holds(r + 2, c + 2, s) && self.holds(r + 3, c + 3, s);
        let anti = room_right && room_up && self.holds(r, c, s) && self.holds(r - 1, c + 1, s)
            && self.holds(r - 2, c + 2, s) && self.holds(r - 3, c + 3, s);
        proof {
            let (ri, ci) = (r as int, c as int);
            assert(across == v.run_of(s, ri, ci, 0, 1));
            assert(down == v.run_of(s, ri, ci, 1, 0));
            assert(diag == v.run_of(s, ri, ci, 1, 1));
            assert(anti == v.run_of(s, ri, ci, -1, 1));
            if v.run_starts_at(s, ri, ci) {
                let (dr, dc) = choose|dr: int, dc: int|
                    BoardView::is_direction(dr, dc) && #[trigger] v.run_of(s, ri, ci, dr, dc);
                assert(across || down || diag || anti);
            }
        }
        across || down || diag || anti
    }

    /// Whether `s` holds four contiguous cells in a row, a column or a diagonal.
    pub fn has_won(&self, s: Symbol) -> (res: bool)
        requires
            self.wf(),
        ensures
            res == self@.wins(s),
    {
        let mut r: usize = 0;
        while r < self.rows
            invariant
                self.wf(),
                r <= self@.rows,
                forall|r2: int, c2: int| 0 <= r2 < r ==> !#[trigger] self@.run_starts_at(s, r2, c2),
            decreases self.rows - r,
        {
            let mut c: usize = 0;
            while c < self.cols
                invariant
                    self.wf(),
                    r < self@.rows,
                    c <= self@.cols,
                    forall|r2: int, c2: int| 0 <= r2 < r ==> !#[trigger] self@.run_starts_at(s, r2, c2),
                    forall|c2: int| 0 <= c2 < c ==> !#[trigger] self@.run_starts_at(s, r as int, c2),
                decreases self.cols - c,
            {
                if self.run_starts_at(s, r, c) {
                    return true;
                }
                c = c + 1;
            }
            proof {
                assert forall|r2: int, c2: int| 0 <= r2 <= r implies !#[trigger] self@.run_starts_at(s, r2, c2) by {
                    if r2 == r && !(0 <= c2 < self@.cols) && self@.run_starts_at(s, r2, c2) {
                        let (dr, dc) = choose|dr: int, dc: int|
                            BoardView::is_direction(dr, dc) && #[trigger] self@.run_of(s, r2, c2, dr, dc);
                    }
                }
            }
            r = r + 1;
        }
        proof {
            if self@.wins(s) {
                let (r2, c2) = choose|r2: int, c2: int| #[trigger] self@.run_starts_at(s, r2, c2);
                let (dr, dc) = choose|dr: int, dc: int|
                    BoardView::is_direction(dr, dc) && #[trigger] self@.run_of(s, r2, c2, dr, dc);
            }
        }
        false
    }

    /// Fills the target cell of the legal move `m` with `s`: for a gravity
    /// board the lowest empty cell of the column, for a free board the cell
    /// named.
    pub fn apply(&mut self, m: Move, s: Symbol)
        requires
            old(self).wf(),
            old(self)@.legal(m),
        ensures
            final(self).wf(),
            final(self)@.wf(),
            final(self)@ == old(self)@.placed(m, s),
    {
        let ghost v = self@;
        let (row, col) = match m {
            Move::Drop { col } => {
                let mut row: usize = self.rows - 1;
                while row > 0 && self.cells[row][col] != Cell::Empty
                    invariant
                        self.wf(),
                        self@ == v,
                        v.legal(m),
                        m == (Move::Drop { col }),
                        row < v.rows,
                        forall|r2: int| row < r2 < v.rows ==> v.cell(r2, col as int) != Cell::Empty,
                    decreases row,
                {
                    row = row - 1;
                }
                proof {
                    assert(v.lands_at(col as int, row as int));
                    assert forall|r1: int| v.lands_at(col as int, r1) implies r1 == row by {
                        if r1 < row {
                            assert(v.cell(row as int, col as int) != Cell::Empty);
                        } else if r1 > row {
                            assert(v.cell(r1, col as int) != Cell::Empty);
                        }
                    }
                    assert(v.target(m) == (row as int, col as int));
                }
                (row, col)
            },
            Move::Place { row, col } => (row, col),
        };
        self.cells[row][col] = Cell::Taken(s);
        assert(self@.grid =~= v.placed(m, s).grid);
    }
}

} // verus!
