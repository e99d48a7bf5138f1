use vstd::prelude::*;
use crate::board::{BoardKind, BoardView, Cell, Move, Symbol};
use crate::room::{MoveRejected, RoomView};

verus! {

/// The room after the attempts of `moves`, made one after another.
pub open spec fn play(st: RoomView, moves: Seq<(Symbol, Move)>) -> RoomView
    decreases moves.len(),
{
    if moves.len() == 0 {
        st
    } else {
        let before = play(st, moves.drop_last());
        before.step(moves.last().0, moves.last().1).0
    }
}

/// How many of the attempts of `moves` were accepted.
pub open spec fn accepted(st: RoomView, moves: Seq<(Symbol, Move)>) -> nat
    decreases moves.len(),
{
    if moves.len() == 0 {
        0
    } else {
        let before = play(st, moves.drop_last());
        let ok: nat = if before.step(moves.last().0, moves.last().1).1 is Ok {
            1
        } else {
            0
        };
        accepted(st, moves.drop_last()) + ok
    }
}

/// An accepted move is made by the symbol that holds the turn and hands the
/// turn to the other symbol; a refused move leaves the whole room, turn
/// included, as it was.
pub proof fn lemma_turn_flips_once(st: RoomView, s: Symbol, m: Move)
    ensures
        st.step(s, m).1 is Ok ==> s == st.turn && st.step(s, m).0.turn == st.turn.spec_other(),
        st.step(s, m).1 is Err ==> st.step(s, m).0 == st,
{
}

/// Over any sequence of attempts, the turn has changed hands exactly once
/// per accepted move: it is back with the first mover after an even number
/// of accepted moves and with the other symbol after an odd number.
pub proof fn lemma_turn_alternates(st: RoomView, moves: Seq<(Symbol, Move)>)
    ensures
        play(st, moves).turn == if accepted(st, moves) % 2 == 0 {
            st.turn
        } else {
            st.turn.spec_other()
        },
    decreases moves.len(),
{
    if moves.len() > 0 {
        lemma_turn_alternates(st, moves.drop_last());
    }
}

/// Two attempts by one symbol for the same turn, made one after the other
/// on the room: if the first is accepted, the second is refused because the
/// turn has passed; if the first is refused, the room is untouched, so the
/// second is judged as if it came alone. At most one of them is applied.
pub proof fn lemma_one_move_per_turn(st: RoomView, s: Symbol, m1: Move, m2: Move)
    ensures
        st.step(s, m1).1 is Ok ==> st.step(s, m1).0.step(s, m2) == (
            st.step(s, m1).0,
            Err::<crate::room::Outcome, MoveRejected>(MoveRejected::NotYourTurn),
        ),
        st.step(s, m1).1 is Err ==> st.step(s, m1).0.step(s, m2) == st.step(s, m2),
        !(st.step(s, m1).1 is Ok && st.step(s, m1).0.step(s, m2).1 is Ok),
{
}

proof fn lemma_landing_from(b: BoardView, c: int, r: int)
    requires
        b.wf(),
        b.is_empty_at(0, c),
        0 <= r < b.rows,
        forall|r2: int| r < r2 < b.rows ==> b.cell(r2, c) != Cell::Empty,
    ensures
        exists|r1: int| b.lands_at(c, r1),
    decreases r,
{
    if b.cell(r, c) == Cell::Empty {
        assert(b.lands_at(c, r));
    } else {
        lemma_landing_from(b, c, r - 1);
    }
}

/// On a gravity board, a legal drop into column `c` fills the lowest empty
/// cell of that column with the mover's symbol and nothing else, and a
/// drop into a full column, or a column outside the grid, is refused.
pub proof fn lemma_gravity_drop(b: BoardView, c: usize, s: Symbol)
    requires
        b.wf(),
        b.kind == BoardKind::Gravity,
    ensures
        b.legal(Move::Drop { col: c }) ==> {
            let r = b.target(Move::Drop { col: c }).0;
            let after = b.placed(Move::Drop { col: c }, s);
            &&& b.is_empty_at(r, c as int)
            &&& forall|r2: int| r < r2 < b.rows ==> b.cell(r2, c as int) != Cell::Empty
            &&& after.cell(r, c as int) == Cell::Taken(s)
            &&& forall|i: int, j: int|
                b.in_bounds(i, j) && (i, j) != (r, c as int) ==> after.cell(i, j) == b.cell(i, j)
        },
        (forall|r: int| 0 <= r < b.rows ==> b.cell(r, c as int) != Cell::Empty) ==> !b.legal(
            Move::Drop { col: c },
        ),
        c >= b.cols ==> !b.legal(Move::Drop { col: c }),
{
    if b.legal(Move::Drop { col: c }) {
        lemma_landing_from(b, c as int, b.rows - 1);
    }
}

/// On a free board, a move onto a taken cell or outside the grid is refused
/// and leaves the room unchanged, whoever makes it.
pub proof fn lemma_free_rejects(st: RoomView, s: Symbol, row: usize, col: usize)
    requires
        st.board.kind == BoardKind::Free,
        !st.board.is_empty_at(row as int, col as int),
    ensures
        st.step(s, Move::Place { row, col }).0 == st,
        st.step(s, Move::Place { row, col }).1 is Err,
        s == st.turn ==> st.step(s, Move::Place { row, col }).1 == Err::<
            crate::room::Outcome,
            MoveRejected,
        >(MoveRejected::IllegalMove),
{
}

/// On a free board, a legal move fills exactly the cell it names.
pub proof fn lemma_free_place(b: BoardView, row: usize, col: usize, s: Symbol)
    requires
        b.wf(),
        b.kind == BoardKind::Free,
        b.legal(Move::Place { row, col }),
    ensures
        b.placed(Move::Place { row, col }, s).cell(row as int, col as int) == Cell::Taken(s),
        forall|i: int, j: int|
            b.in_bounds(i, j) && (i, j) != (row as int, col as int) ==> b.placed(
                Move::Place { row, col },
                s,
            ).cell(i, j) == b.cell(i, j),
{
}

/// A legal move fills one empty cell inside the grid.
pub proof fn lemma_target_empty(b: BoardView, m: Move)
    requires
        b.wf(),
        b.legal(m),
    ensures
        b.is_empty_at(b.target(m).0, b.target(m).1),
{
    if let Move::Drop { col } = m {
        lemma_landing_from(b, col as int, b.rows - 1);
    }
}

/// A move can only create a win for its mover: it keeps every win the
/// mover already had, and leaves unchanged whether the other symbol wins.
pub proof fn lemma_only_mover_wins(b: BoardView, m: Move, s: Symbol)
    requires
        b.wf(),
        b.legal(m),
    ensures
        b.wins(s) ==> b.placed(m, s).wins(s),
        b.placed(m, s).wins(s.spec_other()) == b.wins(s.spec_other()),
{
    lemma_target_empty(b, m);
    let after = b.placed(m, s);
    let (tr, tc) = b.target(m);
    assert forall|r: int, c: int| b.in_bounds(r, c) && (r, c) != (tr, tc) implies after.cell(r, c)
        == b.cell(r, c) by {}
    let t = s.spec_other();
    if b.wins(s) {
        let (r, c) = choose|r: int, c: int| #[trigger] b.run_starts_at(s, r, c);
        let (dr, dc) = choose|dr: int, dc: int|
            BoardView::is_direction(dr, dc) && #[trigger] b.run_of(s, r, c, dr, dc);
        assert(after.run_of(s, r, c, dr, dc));
        assert(after.run_starts_at(s, r, c));
    }
    if b.wins(t) {
        let (r, c) = choose|r: int, c: int| #[trigger] b.run_starts_at(t, r, c);
        let (dr, dc) = choose|dr: int, dc: int|
            BoardView::is_direction(dr, dc) && #[trigger] b.run_of(t, r, c, dr, dc);
        assert(after.run_of(t, r, c, dr, dc));
        assert(after.run_starts_at(t, r, c));
    }
    if after.wins(t) {
        let (r, c) = choose|r: int, c: int| #[trigger] after.run_starts_at(t, r, c);
        let (dr, dc) = choose|dr: int, dc: int|
            BoardView::is_direction(dr, dc) && #[trigger] after.run_of(t, r, c, dr, dc);
        assert(after.cell(tr, tc) == Cell::Taken(s));
        assert(b.run_of(t, r, c, dr, dc));
        assert(b.run_starts_at(t, r, c));
    }
}

/// A new board's grid is `rows` rows of `cols` empty cells.
pub proof fn lemma_fresh_grid(b: BoardView)
    requires
        b.wf(),
        forall|i: int, j: int| b.in_bounds(i, j) ==> b.cell(i, j) == Cell::Empty,
    ensures
        b.grid == Seq::new(b.rows, |i: int| Seq::new(b.cols, |j: int| Cell::Empty)),
{
    let g = Seq::new(b.rows, |i: int| Seq::new(b.cols, |j: int| Cell::Empty));
    assert forall|i: int| 0 <= i < b.rows implies b.grid[i] == g[i] by {
        assert forall|j: int| 0 <= j < b.cols implies b.grid[i][j] == Cell::Empty by {
            assert(b.in_bounds(i, j));
            assert(b.cell(i, j) == Cell::Empty);
        }
        assert(b.grid[i] =~= g[i]);
    }
    assert(b.grid =~= g);
}

} // verus!
