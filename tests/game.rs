use game_room::{
    ends_session, handle_line, parse_move, reply_message, room_full_message, BoardKind, Cell,
    GameRoom, Move, MoveRejected, Outcome, ParseError, Reply, RoomFull, Symbol, CLEAR_LINES,
};

fn gravity() -> GameRoom {
    GameRoom::new(BoardKind::Gravity, 6, 7)
}

fn drop_col(room: &mut GameRoom, s: Symbol, col: usize) -> Result<Outcome, MoveRejected> {
    room.attempt_move(s, Move::Drop { col })
}

fn place(room: &mut GameRoom, s: Symbol, row: usize, col: usize) -> Result<Outcome, MoveRejected> {
    room.attempt_move(s, Move::Place { row, col })
}

fn cell(room: &GameRoom, r: usize, c: usize) -> Cell {
    room.board().row(r)[c]
}

#[test]
fn four_in_the_bottom_row_wins() {
    let mut room = gravity();
    for col in 0..3 {
        assert_eq!(drop_col(&mut room, Symbol::A, col), Ok(Outcome::Continue));
        assert_eq!(drop_col(&mut room, Symbol::B, col), Ok(Outcome::Continue));
    }
    assert_eq!(drop_col(&mut room, Symbol::A, 3), Ok(Outcome::Win(Symbol::A)));
}

#[test]
fn stacked_columns_then_a_third_column_does_not_win() {
    let mut room = gravity();
    for _ in 0..3 {
        assert_eq!(drop_col(&mut room, Symbol::A, 0), Ok(Outcome::Continue));
        assert_eq!(drop_col(&mut room, Symbol::B, 1), Ok(Outcome::Continue));
    }
    assert_eq!(drop_col(&mut room, Symbol::A, 2), Ok(Outcome::Continue));
    // B's fourth piece in column 1 completes a vertical run.
    assert_eq!(drop_col(&mut room, Symbol::B, 1), Ok(Outcome::Win(Symbol::B)));
}

#[test]
fn drop_lands_in_lowest_empty_row() {
    let mut room = gravity();
    assert!(drop_col(&mut room, Symbol::A, 2).is_ok());
    assert!(drop_col(&mut room, Symbol::B, 2).is_ok());
    assert_eq!(cell(&room, 5, 2), Cell::Taken(Symbol::A));
    assert_eq!(cell(&room, 4, 2), Cell::Taken(Symbol::B));
    assert_eq!(cell(&room, 3, 2), Cell::Empty);
    assert_eq!(cell(&room, 5, 1), Cell::Empty);
}

#[test]
fn full_column_is_rejected() {
    let mut room = gravity();
    let mut s = Symbol::A;
    for _ in 0..6 {
        assert!(drop_col(&mut room, s, 0).is_ok());
        s = s.other();
    }
    let before = room.get_game_state();
    assert_eq!(drop_col(&mut room, s, 0), Err(MoveRejected::IllegalMove));
    assert_eq!(room.turn(), s);
    assert_eq!(room.get_game_state(), before);
}

#[test]
fn column_outside_the_grid_is_rejected() {
    let mut room = gravity();
    assert_eq!(drop_col(&mut room, Symbol::A, 7), Err(MoveRejected::IllegalMove));
    assert_eq!(room.turn(), Symbol::A);
}

#[test]
fn move_of_the_other_variant_is_rejected() {
    let mut room = gravity();
    assert_eq!(place(&mut room, Symbol::A, 5, 0), Err(MoveRejected::IllegalMove));
    let mut free = GameRoom::new(BoardKind::Free, 8, 8);
    assert_eq!(drop_col(&mut free, Symbol::A, 0), Err(MoveRejected::IllegalMove));
}

#[test]
fn turn_alternates_and_survives_rejections() {
    let mut room = gravity();
    assert_eq!(room.turn(), Symbol::A);
    assert!(drop_col(&mut room, Symbol::A, 3).is_ok());
    assert_eq!(room.turn(), Symbol::B);
    assert!(drop_col(&mut room, Symbol::A, 3).is_err());
    assert!(drop_col(&mut room, Symbol::B, 9).is_err());
    assert_eq!(room.turn(), Symbol::B);
    assert!(drop_col(&mut room, Symbol::B, 3).is_ok());
    assert_eq!(room.turn(), Symbol::A);
}

#[test]
fn second_attempt_for_the_same_turn_is_rejected() {
    let mut room = gravity();
    assert_eq!(drop_col(&mut room, Symbol::A, 1), Ok(Outcome::Continue));
    assert_eq!(drop_col(&mut room, Symbol::A, 2), Err(MoveRejected::NotYourTurn));
    assert_eq!(cell(&room, 5, 2), Cell::Empty);
}

#[test]
fn free_board_seats_two_and_refuses_a_third() {
    let mut room = GameRoom::new(BoardKind::Free, 8, 8);
    assert_eq!(room.seat("10.0.0.1:5000".to_string()), Ok(Symbol::A));
    assert_eq!(room.seat("10.0.0.2:5000".to_string()), Ok(Symbol::B));
    assert_eq!(place(&mut room, Symbol::A, 0, 0), Ok(Outcome::Continue));
    assert_eq!(place(&mut room, Symbol::B, 0, 1), Ok(Outcome::Continue));
    assert_eq!(room.seat("10.0.0.3:5000".to_string()), Err(RoomFull));
    assert_eq!(room.player_count(), 2);
    let players = room.players();
    assert_eq!(players.len(), 2);
    assert_eq!(players[0].symbol, Symbol::A);
    assert_eq!(players[0].address, "10.0.0.1:5000");
    assert_eq!(players[1].symbol, Symbol::B);
    assert_eq!(players[1].address, "10.0.0.2:5000");
    assert_eq!(cell(&room, 0, 0), Cell::Taken(Symbol::A));
    assert_eq!(cell(&room, 0, 1), Cell::Taken(Symbol::B));
    assert_eq!(
        room_full_message(),
        "Jogo já cheio, aguarde uma nova partida!\n".to_string()
    );
}

#[test]
fn free_board_rejects_taken_and_outside_cells() {
    let mut room = GameRoom::new(BoardKind::Free, 8, 8);
    assert!(place(&mut room, Symbol::A, 4, 4).is_ok());
    assert_eq!(place(&mut room, Symbol::B, 4, 4), Err(MoveRejected::IllegalMove));
    assert_eq!(place(&mut room, Symbol::B, 8, 0), Err(MoveRejected::IllegalMove));
    assert_eq!(place(&mut room, Symbol::B, 0, 8), Err(MoveRejected::IllegalMove));
    assert_eq!(room.turn(), Symbol::B);
    assert_eq!(cell(&room, 4, 4), Cell::Taken(Symbol::A));
}

fn free_room_with(cells_a: &[(usize, usize)]) -> GameRoom {
    let mut room = GameRoom::new(BoardKind::Free, 8, 8);
    let fillers = [(7, 0), (7, 2), (7, 4), (7, 6)];
    for (i, &(r, c)) in cells_a.iter().enumerate() {
        assert!(place(&mut room, Symbol::A, r, c).is_ok());
        if i + 1 < cells_a.len() {
            let (fr, fc) = fillers[i];
            assert!(place(&mut room, Symbol::B, fr, fc).is_ok());
        }
    }
    room
}

#[test]
fn wins_in_every_direction() {
    let horizontal = free_room_with(&[(2, 1), (2, 2), (2, 3), (2, 4)]);
    assert!(horizontal.board().has_won(Symbol::A));
    let vertical = free_room_with(&[(1, 5), (2, 5), (3, 5), (4, 5)]);
    assert!(vertical.board().has_won(Symbol::A));
    let diagonal = free_room_with(&[(0, 0), (1, 1), (2, 2), (3, 3)]);
    assert!(diagonal.board().has_won(Symbol::A));
    let anti = free_room_with(&[(6, 1), (5, 2), (4, 3), (3, 4)]);
    assert!(anti.board().has_won(Symbol::A));
    assert!(!anti.board().has_won(Symbol::B));
}

#[test]
fn three_in_a_row_or_a_gap_does_not_win() {
    let three = free_room_with(&[(2, 1), (2, 2), (2, 3)]);
    assert!(!three.board().has_won(Symbol::A));
    let gap = free_room_with(&[(2, 1), (2, 2), (2, 4), (2, 5)]);
    assert!(!gap.board().has_won(Symbol::A));
}

#[test]
fn win_is_reported_by_attempt_move() {
    let mut room = GameRoom::new(BoardKind::Free, 8, 8);
    for i in 0..3 {
        assert_eq!(place(&mut room, Symbol::A, i, i), Ok(Outcome::Continue));
        assert_eq!(place(&mut room, Symbol::B, 7, i), Ok(Outcome::Continue));
    }
    assert_eq!(place(&mut room, Symbol::A, 3, 3), Ok(Outcome::Win(Symbol::A)));
}

#[test]
fn non_numeric_token_is_a_format_error() {
    let mut room = gravity();
    let before = room.get_game_state();
    let r = handle_line(&mut room, Symbol::A, "abc\n");
    assert_eq!(r, Reply::BadFormat(ParseError::NotANumber));
    assert!(!ends_session(r));
    assert_eq!(room.turn(), Symbol::A);
    assert_eq!(room.get_game_state(), before);
    let text = reply_message(BoardKind::Gravity, r).unwrap();
    assert_eq!(text, "Coluna inválida. Use o formato: número da coluna (ex: 1)\n".to_string());
}

#[test]
fn out_of_turn_submission_is_rejected() {
    let mut room = gravity();
    let before = room.get_game_state();
    let r = handle_line(&mut room, Symbol::B, "3\n");
    assert_eq!(r, Reply::Rejected(MoveRejected::NotYourTurn));
    assert!(!ends_session(r));
    assert_eq!(room.turn(), Symbol::A);
    assert_eq!(room.get_game_state(), before);
    assert_eq!(
        reply_message(BoardKind::Gravity, r),
        Some("Não é a sua vez.\n".to_string())
    );
}

#[test]
fn handle_line_applies_and_reports_a_win() {
    let mut room = gravity();
    for col in 0..3 {
        assert_eq!(handle_line(&mut room, Symbol::A, &format!("{}\n", col)), Reply::Moved);
        assert_eq!(handle_line(&mut room, Symbol::B, &format!(" {} ", col)), Reply::Moved);
    }
    let r = handle_line(&mut room, Symbol::A, "3");
    assert_eq!(r, Reply::Won);
    assert!(ends_session(r));
    assert_eq!(reply_message(BoardKind::Gravity, r), Some("Você venceu!\n".to_string()));
    assert_eq!(reply_message(BoardKind::Gravity, Reply::Moved), None);
}

#[test]
fn wrong_token_count_is_a_format_error() {
    let mut room = gravity();
    let r = handle_line(&mut room, Symbol::A, "1 2");
    assert_eq!(r, Reply::BadFormat(ParseError::WrongTokenCount));
    assert_eq!(
        reply_message(BoardKind::Gravity, r),
        Some("Formato de jogada inválido. Use o formato: número da coluna (ex: 1)\n".to_string())
    );
    assert_eq!(
        reply_message(BoardKind::Free, r),
        Some("Formato de jogada inválido. Use o formato: linha e coluna (ex: 1 2)\n".to_string())
    );
    assert_eq!(handle_line(&mut room, Symbol::A, "   \n"), Reply::BadFormat(ParseError::WrongTokenCount));
    assert_eq!(room.turn(), Symbol::A);
}

#[test]
fn full_column_through_a_session_is_rejected_with_a_message() {
    let mut room = gravity();
    let mut s = Symbol::A;
    for _ in 0..6 {
        assert_eq!(handle_line(&mut room, s, "0"), Reply::Moved);
        s = s.other();
    }
    let r = handle_line(&mut room, s, "0");
    assert_eq!(r, Reply::Rejected(MoveRejected::IllegalMove));
    assert_eq!(
        reply_message(BoardKind::Gravity, r),
        Some("Jogada inválida. Escolha uma coluna vazia.".to_string())
    );
}

#[test]
fn parse_move_reads_tokens() {
    assert_eq!(parse_move(BoardKind::Gravity, " 3 \r\n"), Ok(Move::Drop { col: 3 }));
    assert_eq!(parse_move(BoardKind::Gravity, "+4"), Ok(Move::Drop { col: 4 }));
    assert_eq!(parse_move(BoardKind::Gravity, "007"), Ok(Move::Drop { col: 7 }));
    assert_eq!(parse_move(BoardKind::Gravity, "-1"), Err(ParseError::NotANumber));
    assert_eq!(parse_move(BoardKind::Gravity, "+"), Err(ParseError::NotANumber));
    assert_eq!(parse_move(BoardKind::Gravity, "3x"), Err(ParseError::NotANumber));
    assert_eq!(parse_move(BoardKind::Gravity, ""), Err(ParseError::WrongTokenCount));
    assert_eq!(parse_move(BoardKind::Free, "2\t5"), Ok(Move::Place { row: 2, col: 5 }));
    assert_eq!(parse_move(BoardKind::Free, "2"), Err(ParseError::WrongTokenCount));
    assert_eq!(parse_move(BoardKind::Free, "2 b"), Err(ParseError::NotANumber));
    assert_eq!(parse_move(BoardKind::Free, "1 2 3"), Err(ParseError::WrongTokenCount));
}

#[test]
fn parse_move_bounds_of_usize() {
    let max = usize::MAX.to_string();
    assert_eq!(parse_move(BoardKind::Gravity, &max), Ok(Move::Drop { col: usize::MAX }));
    let over = format!("{}0", max);
    assert_eq!(parse_move(BoardKind::Gravity, &over), Err(ParseError::NotANumber));
    assert_eq!(
        parse_move(BoardKind::Gravity, "18446744073709551616"),
        Err(ParseError::NotANumber)
    );
}

#[test]
fn rendering_is_blank_lines_then_the_grid() {
    let mut room = GameRoom::new(BoardKind::Gravity, 2, 3);
    let blank = "\n".repeat(CLEAR_LINES);
    assert_eq!(room.get_game_state(), format!("{}+++\n+++\n", blank));
    assert!(drop_col(&mut room, Symbol::A, 1).is_ok());
    assert!(drop_col(&mut room, Symbol::B, 1).is_ok());
    assert!(drop_col(&mut room, Symbol::A, 2).is_ok());
    assert_eq!(room.get_game_state(), format!("{}+O+\n+XX\n", blank));
}

#[test]
fn update_game_state_plays_for_the_turn_holder() {
    let mut room = gravity();
    assert_eq!(room.update_game_state(Move::Drop { col: 6 }), Ok(()));
    assert_eq!(cell(&room, 5, 6), Cell::Taken(Symbol::A));
    assert_eq!(room.turn(), Symbol::B);
    assert_eq!(room.update_game_state(Move::Drop { col: 6 }), Ok(()));
    assert_eq!(cell(&room, 4, 6), Cell::Taken(Symbol::B));
    let err = room.update_game_state(Move::Drop { col: 10 });
    assert_eq!(
        err,
        Err("Jogada inválida. Escolha uma coluna vazia.".to_string())
    );
    assert_eq!(room.turn(), Symbol::A);
}

#[test]
fn empty_room_has_no_players_and_a_to_move() {
    let room = GameRoom::new(BoardKind::Free, 3, 4);
    assert_eq!(room.player_count(), 0);
    assert!(room.is_turn_of(Symbol::A));
    assert!(!room.is_turn_of(Symbol::B));
    assert_eq!(room.board().rows(), 3);
    assert_eq!(room.board().cols(), 4);
    assert_eq!(room.board().kind(), BoardKind::Free);
    assert!(!room.board().has_won(Symbol::A));
}

#[test]
fn free_board_messages() {
    let mut room = GameRoom::new(BoardKind::Free, 8, 8);
    let r = handle_line(&mut room, Symbol::A, "1 x");
    assert_eq!(r, Reply::BadFormat(ParseError::NotANumber));
    assert_eq!(
        reply_message(BoardKind::Free, r),
        Some("Casa inválida. Use o formato: linha e coluna (ex: 1 2)\n".to_string())
    );
    assert_eq!(handle_line(&mut room, Symbol::A, "1 1"), Reply::Moved);
    let r = handle_line(&mut room, Symbol::B, "1 1");
    assert_eq!(r, Reply::Rejected(MoveRejected::IllegalMove));
    assert_eq!(
        reply_message(BoardKind::Free, r),
        Some("Jogada inválida. Escolha uma casa vazia.".to_string())
    );
    assert_eq!(
        room.update_game_state(Move::Place { row: 9, col: 0 }),
        Err("Jogada inválida. Escolha uma casa vazia.".to_string())
    );
}
