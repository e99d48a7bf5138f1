use vstd::prelude::*;
use vstd::string::{StrSliceExecFns, StringExecFns};
use crate::board::{BoardKind, Move, Symbol};
use crate::room::{illegal_move_message, illegal_move_text, GameRoom, MoveRejected, Outcome, RoomView};

verus! {

/// Whether `c` separates the tokens of a command line: the characters that
/// carry the Unicode White_Space property.
pub open spec fn is_space(c: char) -> bool {
    let u = c as u32;
    ||| (0x9 <= u && u <= 0xd)
    ||| u == 0x20
    ||| u == 0x85
    ||| u == 0xa0
    ||| u == 0x1680
    ||| (0x2000 <= u && u <= 0x200a)
    ||| u == 0x2028
    ||| u == 0x2029
    ||| u == 0x202f
    ||| u == 0x205f
    ||| u == 0x3000
}

fn space(c: char) -> (r: bool)
    ensures
        r == is_space(c),
{
    let u = c as u32;
    (0x9 <= u && u <= 0xd) || u == 0x20 || u == 0x85 || u == 0xa0 || u == 0x1680 || (0x2000
        <= u && u <= 0x200a) || u == 0x2028 || u == 0x2029 || u == 0x202f || u == 0x205f || u
        == 0x3000
}

/// The tokens of `s[i..]`, given that `cur` holds the characters of the
/// token being read when position `i` is reached.
pub open spec fn split_from(s: Seq<char>, i: int, cur: Seq<char>) -> Seq<Seq<char>>
    decreases s.len() - i,
{
    if i >= s.len() {
        if cur.len() > 0 {
            seq![cur]
        } else {
            Seq::empty()
        }
    } else if is_space(s[i]) {
        let done: Seq<Seq<char>> = if cur.len() > 0 {
            seq![cur]
        } else {
            Seq::empty()
        };
        done + split_from(s, i + 1, Seq::empty())
    } else {
        split_from(s, i + 1, cur.push(s[i]))
    }
}

/// The maximal runs of non-space characters of `s`, in order.
pub open spec fn tokens(s: Seq<char>) -> Seq<Seq<char>> {
    split_from(s, 0, Seq::empty())
}

pub open spec fn is_digit(c: char) -> bool {
    48 <= (c as u32) <= 57
}

/// The number that a string of decimal digits writes.
pub open spec fn digits_value(d: Seq<char>) -> nat
    decreases d.len(),
{
    if d.len() == 0 {
        0
    } else {
        digits_value(d.drop_last()) * 10 + ((d.last() as u32) - ('0' as u32)) as nat
    }
}

/// The digits of a token: an optional leading `+` is dropped.
pub open spec fn unsigned_digits(t: Seq<char>) -> Seq<char> {
    if t.len() > 0 && t[0] == '+' {
        t.drop_first()
    } else {
        t
    }
}

/// The value of a token that writes a `usize` in decimal: one or more
/// digits after an optional `+`, of a value that fits.
pub open spec fn token_value(t: Seq<char>) -> Option<usize> {
    let d = unsigned_digits(t);
    if d.len() > 0 && (forall|i: int| 0 <= i < d.len() ==> is_digit(#[trigger] d[i]))
        && digits_value(d) <= usize::MAX {
        Some(digits_value(d) as usize)
    } else {
        None
    }
}

/// Why a command line is not a move.
#[derive(Clone, Copy, Debug, PartialEq, Eq, Structural)]
pub enum ParseError {
    /// The line has the wrong number of tokens for the board's variant.
    WrongTokenCount,
    /// A token is not a non-negative integer.
    NotANumber,
}

/// The move that a command line asks for: one column for a gravity board,
/// a row and a column for a free board, separated by white space.
pub open spec fn command(kind: BoardKind, line: Seq<char>) -> Result<Move, ParseError> {
    let t = tokens(line);
    match kind {
        BoardKind::Gravity => if t.len() != 1 {
            Err(ParseError::WrongTokenCount)
        } else {
            match token_value(t[0]) {
                Some(col) => Ok(Move::Drop { col }),
                None => Err(ParseError::NotANumber),
            }
        },
        BoardKind::Free => if t.len() != 2 {
            Err(ParseError::WrongTokenCount)
        } else {
            match (token_value(t[0]), token_value(t[1])) {
                (Some(row), Some(col)) => Ok(Move::Place { row, col }),
                _ => Err(ParseError::NotANumber),
            }
        },
    }
}

proof fn lemma_digits_value_prefix(d: Seq<char>, j: int)
    requires
        0 <= j <= d.len(),
    ensures
        digits_value(d.take(j)) <= digits_value(d),
    decreases d.len(),
{
    if j < d.len() {
        assert(d.drop_last().take(j) =~= d.take(j));
        lemma_digits_value_prefix(d.drop_last(), j);
    } else {
        assert(d.take(j) =~= d);
    }
}

/// The value of one token, as `token_value` states it.
fn parse_token(t: &Vec<char>) -> (r: Option<usize>)
    ensures
        r == token_value(t@),
{
    let ghost d = unsigned_digits(t@);
    let start: usize = if t.len() > 0 && t[0] == '+' {
        1
    } else {
        0
    };
    assert(d =~= t@.skip(start as int));
    if start >= t.len() {
        return None;
    }
    let mut acc: usize = 0;
    let mut i: usize = start;
    while i < t.len()
        invariant
            start <= i <= t@.len(),
            d == t@.skip(start as int),
            d == unsigned_digits(t@),
            d.len() > 0,
            acc == digits_value(d.take(i - start)),
            forall|k: int| 0 <= k < i - start ==> is_digit(#[trigger] d[k]),
        decreases t@.len() - i,
    {
        let c = t[i];
        #[verifier::truncate]
        let u = c as u32;
        assert(d[i - start] == c);
        if u < 48 || u > 57 {
            assert(!is_digit(d[i - start]));
            return None;
        }
        let ghost prev = d.take(i - start);
        let ghost next = d.take(i - start + 1);
        assert(next.drop_last() =~= prev);
        assert(next.last() == c);
        let digit = (u - 48) as usize;
        assert(digits_value(next) == acc * 10 + digit);
        let grown = match acc.checked_mul(10) {
            Some(x) => x.checked_add(digit),
            None => None,
        };
        match grown {
            Some(x) => {
                acc = x;
            },
            None => {
                proof {
                    lemma_digits_value_prefix(d, i - start + 1);
                }
                return None;
            },
        }
        i = i + 1;
    }
    assert(d.take(i - start) =~= d);
    Some(acc)
}

/// The tokens of `line`, as `tokens` states them.
fn split_tokens(line: &str) -> (r: Vec<Vec<char>>)
    ensures
        r@.map_values(|v: Vec<char>| v@) == tokens(line@),
{
    let n = line.unicode_len();
    let ghost s = line@;
    let mut out: Vec<Vec<char>> = Vec::new();
    let mut cur: Vec<char> = Vec::new();
    let mut i: usize = 0;
    while i < n
        invariant
            n == s.len(),
            s == line@,
            i <= n,
            out@.map_values(|v: Vec<char>| v@) + split_from(s, i as int, cur@) == tokens(s),
        decreases n - i,
    {
        let c = line.get_char(i);
        let ghost before = out@.map_values(|v: Vec<char>| v@);
        if space(c) {
            if cur.len() > 0 {
                let ghost word = cur@;
                out.push(cur);
                cur = Vec::new();
                assert(out@.map_values(|v: Vec<char>| v@) =~= before.push(word));
                assert(before + split_from(s, i as int, word) =~= out@.map_values(
                    |v: Vec<char>| v@,
                ) + split_from(s, i + 1, cur@));
            } else {
                assert(cur@ =~= Seq::<char>::empty());
                assert(before + split_from(s, i as int, cur@) =~= before + split_from(
                    s,
                    i + 1,
                    cur@,
                ));
            }
        } else {
            cur.push(c);
        }
        i = i + 1;
    }
    if cur.len() > 0 {
        let ghost before = out@.map_values(|v: Vec<char>| v@);
        let ghost word = cur@;
        out.push(cur);
        assert(out@.map_values(|v: Vec<char>| v@) =~= before.push(word));
        assert(before + split_from(s, i as int, word) =~= out@.map_values(|v: Vec<char>| v@));
    } else {
        assert(out@.map_values(|v: Vec<char>| v@) + split_from(s, i as int, cur@) =~= out@.map_values(
            |v: Vec<char>| v@,
        ));
    }
    out
}

/// Reads a command line as a move for a board of the given variant.
pub fn parse_move(kind: BoardKind, line: &str) -> (r: Result<Move, ParseError>)
    ensures
        r == command(kind, line@),
{
    let toks = split_tokens(line);
    proof {
        assert(toks@.len() == tokens(line@).len());
        assert(forall|i: int| 0 <= i < toks@.len() ==> toks@[i]@ == #[trigger] tokens(line@)[i]);
    }
    match kind {
        BoardKind::Gravity => {
            if toks.len() != 1 {
                return Err(ParseError::WrongTokenCount);
            }
            match parse_token(&toks[0]) {
                Some(col) => Ok(Move::Drop { col }),
                None => Err(ParseError::NotANumber),
            }
        },
        BoardKind::Free => {
            if toks.len() != 2 {
                return Err(ParseError::WrongTokenCount);
            }
            match (parse_token(&toks[0]), parse_token(&toks[1])) {
                (Some(row), Some(col)) => Ok(Move::Place { row, col }),
                _ => Err(ParseError::NotANumber),
            }
        },
    }
}

/// What a session tells its connection after handling one command line.
#[derive(Clone, Copy, Debug, PartialEq, Eq, Structural)]
pub enum Reply {
    /// The line is not a move; the turn is kept.
    BadFormat(ParseError),
    /// The room refused the move; the turn is kept.
    Rejected(MoveRejected),
    /// The move was applied and the game goes on.
    Moved,
    /// The move was applied and won the game; the session ends.
    Won,
}

/// What handling `line` from the player of `s` does to the room, and the reply.
pub open spec fn respond(st: RoomView, s: Symbol, line: Seq<char>) -> (RoomView, Reply) {
    match command(st.board.kind, line) {
        Err(e) => (st, Reply::BadFormat(e)),
        Ok(m) => {
            let (next, r) = st.step(s, m);
            (
                next,
                match r {
                    Err(e) => Reply::Rejected(e),
                    Ok(Outcome::Win(_)) => Reply::Won,
                    Ok(Outcome::Continue) => Reply::Moved,
                },
            )
        },
    }
}

/// Handles one command line read from the connection of the player of `s`:
/// reads it as a move for the room's board and submits it.
pub fn handle_line(room: &mut GameRoom, s: Symbol, line: &str) -> (r: Reply)
    requires
        old(room).wf(),
    ensures
        final(room).wf(),
        final(room)@.wf(),
        final(room).roster() == old(room).roster(),
        (final(room)@, r) == respond(old(room)@, s, line@),
{
    proof {
        room.lemma_view_wf();
    }
    let kind = room.board().kind();
    match parse_move(kind, line) {
        Err(e) => Reply::BadFormat(e),
        Ok(m) => match room.attempt_move(s, m) {
            Err(e) => Reply::Rejected(e),
            Ok(Outcome::Win(_)) => Reply::Won,
            Ok(Outcome::Continue) => Reply::Moved,
        },
    }
}

/// Whether a session ends after this reply: only a win ends it.
pub fn ends_session(r: Reply) -> (b: bool)
    ensures
        b == (r == Reply::Won),
{
    match r {
        Reply::Won => true,
        _ => false,
    }
}

/// The status line that a reply sends, if any; an applied move that does
/// not win sends only the new board.
pub open spec fn reply_text(kind: BoardKind, r: Reply) -> Option<Seq<char>> {
    match r {
        Reply::BadFormat(ParseError::WrongTokenCount) => Some(
            match kind {
                BoardKind::Gravity => "Formato de jogada inválido. Use o formato: número da coluna (ex: 1)\n"@,
                BoardKind::Free => "Formato de jogada inválido. Use o formato: linha e coluna (ex: 1 2)\n"@,
            },
        ),
        Reply::BadFormat(ParseError::NotANumber) => Some(
            match kind {
                BoardKind::Gravity => "Coluna inválida. Use o formato: número da coluna (ex: 1)\n"@,
                BoardKind::Free => "Casa inválida. Use o formato: linha e coluna (ex: 1 2)\n"@,
            },
        ),
        Reply::Rejected(MoveRejected::NotYourTurn) => Some("Não é a sua vez.\n"@),
        Reply::Rejected(MoveRejected::IllegalMove) => Some(illegal_move_text(kind)),
        Reply::Moved => None,
        Reply::Won => Some("Você venceu!\n"@),
    }
}

/// The status line of `reply_text`, as a `String`.
pub fn reply_message(kind: BoardKind, r: Reply) -> (m: Option<String>)
    ensures
        m matches Some(t) ==> reply_text(kind, r) == Some(t@),
        m is None ==> reply_text(kind, r) is None,
{
    match r {
        Reply::BadFormat(ParseError::WrongTokenCount) => Some(
            match kind {
                BoardKind::Gravity => String::from_str(
                    "Formato de jogada inválido. Use o formato: número da coluna (ex: 1)\n",
                ),
                BoardKind::Free => String::from_str(
                    "Formato de jogada inválido. Use o formato: linha e coluna (ex: 1 2)\n",
                ),
            },
        ),
        Reply::BadFormat(ParseError::NotANumber) => Some(
            match kind {
                BoardKind::Gravity => String::from_str(
                    "Coluna inválida. Use o formato: número da coluna (ex: 1)\n",
                ),
                BoardKind::Free => String::from_str(
                    "Casa inválida. Use o formato: linha e coluna (ex: 1 2)\n",
                ),
            },
        ),
        Reply::Rejected(MoveRejected::NotYourTurn) => Some(String::from_str("Não é a sua vez.\n")),
        Reply::Rejected(MoveRejected::IllegalMove) => Some(illegal_move_message(kind)),
        Reply::Moved => None,
        Reply::Won => Some(String::from_str("Você venceu!\n")),
    }
}

/// The line sent to a connection that finds the room full.
pub fn room_full_message() -> (m: String)
    ensures
        m@ == "Jogo já cheio, aguarde uma nova partida!\n"@,
{
    String::from_str("Jogo já cheio, aguarde uma nova partida!\n")
}

} // verus!
