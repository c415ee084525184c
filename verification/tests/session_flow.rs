use glinski_backend::geometry::new_board;
use glinski_backend::models::{Coords, GlobalGame, Move, PieceColor, PieceType};
use glinski_backend::session::{get_game, handle_move, GameStore};

fn fresh_store() -> GameStore {
    GameStore {
        game: GlobalGame { sessions: vec![None, None], board: new_board(), history: Vec::new() },
        table: Vec::new(),
    }
}

fn mv(ff: usize, fr: usize, tf: usize, tr: usize) -> Move {
    Move {
        from: Coords { file_idx: ff, rank_idx: fr },
        to: Coords { file_idx: tf, rank_idx: tr },
    }
}

#[test]
fn first_connection_takes_white_and_sees_its_pawns_low() {
    let mut store = fresh_store();
    let view = get_game(&mut store, "A");
    assert_eq!(view.player, Some(PieceColor::White));
    for f in 1..10usize {
        let row = 4 - (f as i32 - 5).unsigned_abs() as usize;
        let p = view.board[f][row].piece.unwrap();
        assert_eq!(p.color, PieceColor::White);
        assert_eq!(p.ptype, PieceType::Pawn);
    }
    assert!(!view.available_moves.is_empty(), "White moves first");
    assert!(view.last_move.is_none());
}

#[test]
fn second_connection_takes_black_and_later_ones_spectate() {
    let mut store = fresh_store();
    let _ = get_game(&mut store, "A");
    let b = get_game(&mut store, "B");
    assert_eq!(b.player, Some(PieceColor::Black));
    let c = get_game(&mut store, "C");
    assert_eq!(c.player, None);
    assert!(c.available_moves.is_empty(), "a spectator has no moves");
}

#[test]
fn seat_assignment_is_stable_per_identifier() {
    let mut store = fresh_store();
    let _ = get_game(&mut store, "A");
    let _ = get_game(&mut store, "B");
    assert_eq!(store.table.len(), 2);
    let again = get_game(&mut store, "A");
    assert_eq!(again.player, Some(PieceColor::White));
    assert_eq!(store.table.len(), 2, "a known identifier gains no new row");
}

#[test]
fn black_sees_the_board_mirrored() {
    let mut store = fresh_store();
    let _ = get_game(&mut store, "A");
    let b = get_game(&mut store, "B");
    for f in 1..10usize {
        let row = 4 - (f as i32 - 5).unsigned_abs() as usize;
        let p = b.board[f][row].piece.unwrap();
        assert_eq!(p.color, PieceColor::Black, "Black sees its own pawns at low ranks");
        assert_eq!(p.ptype, PieceType::Pawn);
    }
}

#[test]
fn end_to_end_double_step_reaches_both_views() {
    let mut store = fresh_store();
    let _ = get_game(&mut store, "A");
    let _ = get_game(&mut store, "B");
    let applied = handle_move(&mut store, "A", mv(1, 0, 1, 2));
    assert!(applied, "the initial double step is accepted");

    let a = get_game(&mut store, "A");
    assert!(a.board[1][0].piece.is_none());
    let moved = a.board[1][2].piece.unwrap();
    assert_eq!(moved.color, PieceColor::White);
    assert_eq!(moved.ptype, PieceType::Pawn);
    assert_eq!(a.last_move, Some(mv(1, 0, 1, 2)));

    let b = get_game(&mut store, "B");
    let mirrored_from = Coords { file_idx: 1, rank_idx: 0 }.rotate_board();
    let mirrored_to = Coords { file_idx: 1, rank_idx: 2 }.rotate_board();
    assert_eq!(
        b.last_move,
        Some(Move { from: mirrored_from, to: mirrored_to }),
        "Black sees the move in its own frame"
    );
    let seen = b.board[mirrored_to.file_idx][mirrored_to.rank_idx].piece.unwrap();
    assert_eq!(seen.color, PieceColor::White);
    assert_eq!(seen.ptype, PieceType::Pawn);

    let c = get_game(&mut store, "C");
    assert_eq!(c.player, None);
    assert!(c.available_moves.is_empty());
}

#[test]
fn turn_alternates_between_the_two_seats() {
    let mut store = fresh_store();
    let _ = get_game(&mut store, "A");
    let _ = get_game(&mut store, "B");

    assert!(handle_move(&mut store, "A", mv(1, 0, 1, 2)));
    let a = get_game(&mut store, "A");
    assert!(a.available_moves.is_empty(), "White just moved");
    let b = get_game(&mut store, "B");
    assert!(!b.available_moves.is_empty(), "Black is to move");

    // Black answers with its own double step, given in Black's frame.
    assert!(handle_move(&mut store, "B", mv(9, 0, 9, 2)));
    let a = get_game(&mut store, "A");
    assert!(!a.available_moves.is_empty(), "White is to move again");
    let b = get_game(&mut store, "B");
    assert!(b.available_moves.is_empty(), "Black just moved");
}

#[test]
fn out_of_turn_and_spectator_moves_are_rejected() {
    let mut store = fresh_store();
    let _ = get_game(&mut store, "A");
    let _ = get_game(&mut store, "B");
    let _ = get_game(&mut store, "C");

    assert!(!handle_move(&mut store, "B", mv(1, 0, 1, 2)), "Black may not open");
    assert!(handle_move(&mut store, "A", mv(1, 0, 1, 2)));
    assert!(!handle_move(&mut store, "A", mv(2, 1, 2, 2)), "White may not move twice");
    assert!(!handle_move(&mut store, "C", mv(9, 0, 9, 2)), "a spectator may not move");
    assert_eq!(store.game.history.len(), 1);
}

#[test]
fn malformed_moves_are_rejected_without_state_change() {
    let mut store = fresh_store();
    let _ = get_game(&mut store, "A");
    assert!(!handle_move(&mut store, "A", mv(99, 0, 1, 2)), "source off the board");
    assert!(!handle_move(&mut store, "A", mv(0, 0, 0, 17)), "target off the board");
    assert!(!handle_move(&mut store, "A", mv(1, 0, 1, 0)), "a move must change cells");
    assert!(!handle_move(&mut store, "A", mv(0, 0, 0, 1)), "the source must hold a piece");
    assert!(!handle_move(&mut store, "unknown", mv(1, 0, 1, 2)), "unknown identifier");
    assert!(store.game.history.is_empty());
}
