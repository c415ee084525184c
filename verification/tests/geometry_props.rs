use glinski_backend::geometry::{cell_color_at, file_length, new_board};
use glinski_backend::models::CellColor;
use glinski_backend::perspective::adjust_last_move;
use glinski_backend::models::{Coords, Move, PieceColor};

#[test]
fn file_lengths_match_the_documented_profile() {
    let expected = [6, 7, 8, 9, 10, 11, 10, 9, 8, 7, 6];
    for f in 0..11 {
        assert_eq!(file_length(f), expected[f]);
    }
    let total: usize = (0..11).map(file_length).sum();
    assert_eq!(total, 91);
}

#[test]
fn new_board_has_eleven_files_and_ninety_one_cells() {
    let board = new_board();
    assert_eq!(board.len(), 11);
    let expected = [6, 7, 8, 9, 10, 11, 10, 9, 8, 7, 6];
    let mut total = 0;
    for (f, file) in board.iter().enumerate() {
        assert_eq!(file.len(), expected[f]);
        total += file.len();
    }
    assert_eq!(total, 91);
}

#[test]
fn cells_carry_their_own_coordinates() {
    let board = new_board();
    for (f, file) in board.iter().enumerate() {
        for (r, cell) in file.iter().enumerate() {
            assert_eq!(cell.coords, Coords { file_idx: f, rank_idx: r });
        }
    }
}

#[test]
fn cell_colors_follow_the_three_coloring_formula() {
    assert_eq!(cell_color_at(0, 0), CellColor::Dark);
    assert_eq!(cell_color_at(0, 1), CellColor::Mid);
    assert_eq!(cell_color_at(0, 2), CellColor::Light);
    assert_eq!(cell_color_at(5, 0), CellColor::Light);
    assert_eq!(cell_color_at(6, 0), CellColor::Mid);
    assert_eq!(cell_color_at(10, 0), CellColor::Dark);
    let board = new_board();
    for (f, file) in board.iter().enumerate() {
        for (r, cell) in file.iter().enumerate() {
            let idx = (f + r + f.saturating_sub(5)) % 3;
            let expected = [CellColor::Dark, CellColor::Mid, CellColor::Light][idx];
            assert_eq!(cell.color, expected);
        }
    }
}

#[test]
fn perspective_transform_is_an_involution() {
    for f in 0..11usize {
        for r in 0..file_length(f) {
            let c = Coords { file_idx: f, rank_idx: r };
            let once = c.rotate_board();
            let twice = once.rotate_board();
            assert_eq!(twice, c);
        }
    }
}

#[test]
fn rotation_flips_file_and_rank() {
    let c = Coords { file_idx: 0, rank_idx: 0 };
    assert_eq!(c.rotate_board(), Coords { file_idx: 10, rank_idx: 5 });
    let c = Coords { file_idx: 5, rank_idx: 4 };
    assert_eq!(c.rotate_board(), Coords { file_idx: 5, rank_idx: 6 });
}

#[test]
fn adjust_last_move_rotates_only_for_black() {
    let m = Move {
        from: Coords { file_idx: 5, rank_idx: 4 },
        to: Coords { file_idx: 5, rank_idx: 6 },
    };
    let w = adjust_last_move(m, PieceColor::White);
    assert_eq!(w.from, m.from);
    assert_eq!(w.to, m.to);
    let b = adjust_last_move(m, PieceColor::Black);
    assert_eq!(b.from, Coords { file_idx: 5, rank_idx: 6 });
    assert_eq!(b.to, Coords { file_idx: 5, rank_idx: 4 });
}
