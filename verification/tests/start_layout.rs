use glinski_backend::geometry::new_board;
use glinski_backend::models::{PieceColor, PieceType};

#[test]
fn kings_and_queens_stand_on_their_documented_cells() {
    let board = new_board();
    let wk = board[6][0].piece.unwrap();
    assert_eq!(wk.color, PieceColor::White);
    assert_eq!(wk.ptype, PieceType::King);
    let bk = board[6][9].piece.unwrap();
    assert_eq!(bk.color, PieceColor::Black);
    assert_eq!(bk.ptype, PieceType::King);
    let wq = board[4][0].piece.unwrap();
    assert_eq!(wq.color, PieceColor::White);
    assert_eq!(wq.ptype, PieceType::Queen);
    let bq = board[4][9].piece.unwrap();
    assert_eq!(bq.color, PieceColor::Black);
    assert_eq!(bq.ptype, PieceType::Queen);
}

#[test]
fn bishops_line_the_center_file() {
    let board = new_board();
    for r in [0, 1, 2] {
        let p = board[5][r].piece.unwrap();
        assert_eq!(p.color, PieceColor::White);
        assert_eq!(p.ptype, PieceType::Bishop);
    }
    for r in [8, 9, 10] {
        let p = board[5][r].piece.unwrap();
        assert_eq!(p.color, PieceColor::Black);
        assert_eq!(p.ptype, PieceType::Bishop);
    }
}

#[test]
fn rooks_and_knights_stand_mirrored() {
    let board = new_board();
    for f in [2, 8] {
        assert_eq!(board[f][0].piece.unwrap().ptype, PieceType::Rook);
        assert_eq!(board[f][0].piece.unwrap().color, PieceColor::White);
        assert_eq!(board[f][7].piece.unwrap().ptype, PieceType::Rook);
        assert_eq!(board[f][7].piece.unwrap().color, PieceColor::Black);
    }
    for f in [3, 7] {
        assert_eq!(board[f][0].piece.unwrap().ptype, PieceType::Knight);
        assert_eq!(board[f][0].piece.unwrap().color, PieceColor::White);
        assert_eq!(board[f][8].piece.unwrap().ptype, PieceType::Knight);
        assert_eq!(board[f][8].piece.unwrap().color, PieceColor::Black);
    }
}

#[test]
fn pawns_sit_on_their_starting_rows() {
    let board = new_board();
    for f in 1..10usize {
        let white_row = 4 - (f as i32 - 5).unsigned_abs() as usize;
        let wp = board[f][white_row].piece.unwrap();
        assert_eq!(wp.color, PieceColor::White);
        assert_eq!(wp.ptype, PieceType::Pawn);
        let bp = board[f][6].piece.unwrap();
        assert_eq!(bp.color, PieceColor::Black);
        assert_eq!(bp.ptype, PieceType::Pawn);
    }
    assert!(board[0].iter().all(|c| c.piece.is_none()));
    assert!(board[10].iter().all(|c| c.piece.is_none()));
}

#[test]
fn each_side_fields_eighteen_pieces() {
    let board = new_board();
    let mut white = [0usize; 6];
    let mut black = [0usize; 6];
    for file in &board {
        for cell in file {
            if let Some(p) = cell.piece {
                let slot = match p.ptype {
                    PieceType::Pawn => 0,
                    PieceType::Knight => 1,
                    PieceType::Bishop => 2,
                    PieceType::Rook => 3,
                    PieceType::Queen => 4,
                    PieceType::King => 5,
                };
                match p.color {
                    PieceColor::White => white[slot] += 1,
                    PieceColor::Black => black[slot] += 1,
                }
            }
        }
    }
    for side in [white, black] {
        assert_eq!(side[0], 9, "nine pawns");
        assert_eq!(side[1], 2, "two knights");
        assert_eq!(side[2], 3, "three bishops");
        assert_eq!(side[3], 2, "two rooks");
        assert_eq!(side[4], 1, "one queen");
        assert_eq!(side[5], 1, "one king");
        assert_eq!(side.iter().sum::<usize>(), 18);
    }
}
