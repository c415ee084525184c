use glinski_backend::geometry::new_board;
use glinski_backend::models::{Board, Coords, Piece, PieceColor, PieceType};
use glinski_backend::moves::get_available_moves_for_piece;

fn empty_board() -> Board {
    let mut board = new_board();
    for file in board.iter_mut() {
        for cell in file.iter_mut() {
            cell.piece = None;
        }
    }
    board
}

fn put(board: &mut Board, f: usize, r: usize, color: PieceColor, ptype: PieceType) {
    board[f][r].piece = Some(Piece { color, ptype });
}

fn has(dest: &[Coords], f: usize, r: usize) -> bool {
    dest.iter().any(|c| c.file_idx == f && c.rank_idx == r)
}

#[test]
fn rook_ray_stops_before_a_friendly_piece() {
    let mut board = empty_board();
    put(&mut board, 5, 5, PieceColor::White, PieceType::Rook);
    put(&mut board, 5, 8, PieceColor::White, PieceType::Pawn);
    let dest = get_available_moves_for_piece(
        &board,
        Piece { color: PieceColor::White, ptype: PieceType::Rook },
        Coords { file_idx: 5, rank_idx: 5 },
    );
    assert!(has(&dest, 5, 6));
    assert!(has(&dest, 5, 7));
    assert!(!has(&dest, 5, 8), "the friendly blocker is not a destination");
    assert!(!has(&dest, 5, 9), "the ray does not continue past the blocker");
    assert!(!has(&dest, 5, 10));
}

#[test]
fn rook_ray_includes_the_first_opposing_piece_and_stops_there() {
    let mut board = empty_board();
    put(&mut board, 5, 5, PieceColor::White, PieceType::Rook);
    put(&mut board, 5, 2, PieceColor::Black, PieceType::Pawn);
    let dest = get_available_moves_for_piece(
        &board,
        Piece { color: PieceColor::White, ptype: PieceType::Rook },
        Coords { file_idx: 5, rank_idx: 5 },
    );
    assert!(has(&dest, 5, 4));
    assert!(has(&dest, 5, 3));
    assert!(has(&dest, 5, 2), "the capture square belongs to the ray");
    assert!(!has(&dest, 5, 1), "the ray stops on the capture square");
    assert!(!has(&dest, 5, 0));
}

#[test]
fn queen_reaches_everything_rook_and_bishop_reach() {
    let mut board = empty_board();
    let at = Coords { file_idx: 5, rank_idx: 5 };
    put(&mut board, 5, 5, PieceColor::White, PieceType::Queen);
    let queen = get_available_moves_for_piece(
        &board,
        Piece { color: PieceColor::White, ptype: PieceType::Queen },
        at,
    );
    let rook = get_available_moves_for_piece(
        &board,
        Piece { color: PieceColor::White, ptype: PieceType::Rook },
        at,
    );
    let bishop = get_available_moves_for_piece(
        &board,
        Piece { color: PieceColor::White, ptype: PieceType::Bishop },
        at,
    );
    assert_eq!(queen.len(), rook.len() + bishop.len());
    for c in rook.iter().chain(bishop.iter()) {
        assert!(has(&queen, c.file_idx, c.rank_idx));
    }
}

#[test]
fn knight_in_the_center_has_exactly_twelve_destinations() {
    let mut board = empty_board();
    put(&mut board, 5, 5, PieceColor::White, PieceType::Knight);
    let dest = get_available_moves_for_piece(
        &board,
        Piece { color: PieceColor::White, ptype: PieceType::Knight },
        Coords { file_idx: 5, rank_idx: 5 },
    );
    assert_eq!(dest.len(), 12);
    for a in 0..dest.len() {
        for b in (a + 1)..dest.len() {
            assert_ne!(dest[a], dest[b], "knight destinations are distinct");
        }
    }
}

#[test]
fn king_in_the_center_has_exactly_twelve_destinations() {
    let mut board = empty_board();
    put(&mut board, 5, 5, PieceColor::White, PieceType::King);
    let dest = get_available_moves_for_piece(
        &board,
        Piece { color: PieceColor::White, ptype: PieceType::King },
        Coords { file_idx: 5, rank_idx: 5 },
    );
    assert_eq!(dest.len(), 12);
}

#[test]
fn king_at_the_edge_loses_off_board_destinations() {
    let mut board = empty_board();
    put(&mut board, 0, 0, PieceColor::White, PieceType::King);
    let dest = get_available_moves_for_piece(
        &board,
        Piece { color: PieceColor::White, ptype: PieceType::King },
        Coords { file_idx: 0, rank_idx: 0 },
    );
    assert!(dest.len() < 12);
    for c in &dest {
        assert!(c.file_idx < 11);
    }
}

#[test]
fn pawn_advances_one_or_two_from_its_starting_row() {
    let board = new_board();
    let dest = get_available_moves_for_piece(
        &board,
        Piece { color: PieceColor::White, ptype: PieceType::Pawn },
        Coords { file_idx: 1, rank_idx: 0 },
    );
    assert_eq!(dest.len(), 2);
    assert!(has(&dest, 1, 1));
    assert!(has(&dest, 1, 2));
}

#[test]
fn center_pawn_double_step_is_blocked_by_the_opposing_pawn() {
    let board = new_board();
    let dest = get_available_moves_for_piece(
        &board,
        Piece { color: PieceColor::White, ptype: PieceType::Pawn },
        Coords { file_idx: 5, rank_idx: 4 },
    );
    assert_eq!(dest.len(), 1);
    assert!(has(&dest, 5, 5));
}

#[test]
fn pawn_off_its_starting_row_advances_a_single_step() {
    let mut board = empty_board();
    put(&mut board, 5, 5, PieceColor::White, PieceType::Pawn);
    let dest = get_available_moves_for_piece(
        &board,
        Piece { color: PieceColor::White, ptype: PieceType::Pawn },
        Coords { file_idx: 5, rank_idx: 5 },
    );
    assert_eq!(dest.len(), 1);
    assert!(has(&dest, 5, 6));
}

#[test]
fn pawn_captures_only_diagonally_forward() {
    let mut board = empty_board();
    put(&mut board, 5, 4, PieceColor::White, PieceType::Pawn);
    put(&mut board, 5, 5, PieceColor::Black, PieceType::Pawn);
    put(&mut board, 4, 4, PieceColor::Black, PieceType::Pawn);
    put(&mut board, 6, 4, PieceColor::Black, PieceType::Pawn);
    let dest = get_available_moves_for_piece(
        &board,
        Piece { color: PieceColor::White, ptype: PieceType::Pawn },
        Coords { file_idx: 5, rank_idx: 4 },
    );
    assert!(!has(&dest, 5, 5), "a blocked pawn cannot advance");
    assert!(!has(&dest, 5, 6), "a blocked pawn cannot double-step");
    assert!(has(&dest, 4, 4), "capture along the file axis");
    assert!(has(&dest, 6, 4), "capture along the anti-file axis");
    assert_eq!(dest.len(), 2);
}

#[test]
fn file_axis_ray_bends_across_the_central_file() {
    let mut board = empty_board();
    put(&mut board, 8, 0, PieceColor::White, PieceType::Rook);
    let dest = get_available_moves_for_piece(
        &board,
        Piece { color: PieceColor::White, ptype: PieceType::Rook },
        Coords { file_idx: 8, rank_idx: 0 },
    );
    // Walking the file axis from (8,0): the rank climbs while the ray
    // is on the right of the center and stays level past it.
    for (f, r) in [(7, 1), (6, 2), (5, 3), (4, 3), (3, 3), (2, 3), (1, 3), (0, 3)] {
        assert!(has(&dest, f, r), "expected ({}, {}) on the bent ray", f, r);
    }
    assert!(!has(&dest, 4, 4), "no ray visits cells off the six lines");
}
