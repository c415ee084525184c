//! Board geometry: file lengths, coordinate validity, cell coloring and
//! the fixed starting layout.
//!
//! The board is a hexagon of 11 files.  The center file (index 5) has 11
//! cells; file lengths shrink by one toward both edges.

use vstd::prelude::*;

use crate::models::{Board, Cell, CellColor, Coords, Piece, PieceColor, PieceType};

verus! {

/// Number of cells in the file with the given index: `11 - |5 - file|`.
pub open spec fn file_len(file: int) -> int {
    11 - (if file <= 5 {
        5 - file
    } else {
        file - 5
    })
}

/// A coordinate addresses a cell iff its file exists and its rank lies
/// within that file's length.
pub open spec fn coord_ok(file: int, rank: int) -> bool {
    0 <= file < 11 && 0 <= rank < file_len(file)
}

/// The cell a board holds at a coordinate.
pub open spec fn cell_at(b: Board, file: int, rank: int) -> Cell {
    b@[file]@[rank]
}

/// The piece (if any) a board holds at a coordinate.
pub open spec fn piece_at(b: Board, file: int, rank: int) -> Option<Piece> {
    cell_at(b, file, rank).piece
}

/// Display color of the cell at a coordinate, from the three-coloring
/// formula `(file + rank + max(0, file - 5)) mod 3`.
pub open spec fn cell_color(file: int, rank: int) -> CellColor {
    let idx = (file + rank + (if file > 5 {
        file - 5
    } else {
        0
    })) % 3;
    if idx == 0 {
        CellColor::Dark
    } else if idx == 1 {
        CellColor::Mid
    } else {
        CellColor::Light
    }
}

/// A board has the right shape: 11 files of the documented lengths,
/// each cell carrying its own coordinate.
pub open spec fn board_shape_ok(b: Board) -> bool {
    &&& b@.len() == 11
    &&& forall|f: int| 0 <= f < 11 ==> (#[trigger] b@[f]@.len()) == file_len(f)
    &&& forall|f: int, r: int|
        coord_ok(f, r) ==> (#[trigger] b@[f]@[r]).coords == (Coords {
            file_idx: f as usize,
            rank_idx: r as usize,
        })
}

/// A well-shaped board that also carries the fixed cell coloring, as
/// the canonical board does.
pub open spec fn board_geom_ok(b: Board) -> bool {
    &&& board_shape_ok(b)
    &&& forall|f: int, r: int|
        coord_ok(f, r) ==> (#[trigger] b@[f]@[r]).color == cell_color(f, r)
}

/// The piece standing at a coordinate in the fixed Glinski starting
/// layout, in canonical (White-oriented) coordinates.
pub open spec fn start_piece(file: int, rank: int) -> Option<Piece> {
    let d = if file <= 5 {
        5 - file
    } else {
        file - 5
    };
    if 1 <= file && file <= 9 && rank == 4 - d {
        Some(Piece { color: PieceColor::White, ptype: PieceType::Pawn })
    } else if 1 <= file && file <= 9 && rank == 6 {
        Some(Piece { color: PieceColor::Black, ptype: PieceType::Pawn })
    } else if file == 5 && (rank == 0 || rank == 1 || rank == 2) {
        Some(Piece { color: PieceColor::White, ptype: PieceType::Bishop })
    } else if file == 5 && (rank == 8 || rank == 9 || rank == 10) {
        Some(Piece { color: PieceColor::Black, ptype: PieceType::Bishop })
    } else if (file == 2 || file == 8) && rank == 0 {
        Some(Piece { color: PieceColor::White, ptype: PieceType::Rook })
    } else if (file == 2 || file == 8) && rank == 7 {
        Some(Piece { color: PieceColor::Black, ptype: PieceType::Rook })
    } else if (file == 3 || file == 7) && rank == 0 {
        Some(Piece { color: PieceColor::White, ptype: PieceType::Knight })
    } else if (file == 3 || file == 7) && rank == 8 {
        Some(Piece { color: PieceColor::Black, ptype: PieceType::Knight })
    } else if file == 4 && rank == 0 {
        Some(Piece { color: PieceColor::White, ptype: PieceType::Queen })
    } else if file == 4 && rank == 9 {
        Some(Piece { color: PieceColor::Black, ptype: PieceType::Queen })
    } else if file == 6 && rank == 0 {
        Some(Piece { color: PieceColor::White, ptype: PieceType::King })
    } else if file == 6 && rank == 9 {
        Some(Piece { color: PieceColor::Black, ptype: PieceType::King })
    } else {
        None
    }
}

/// Length of the file with the given index.
pub fn file_length(file_idx: usize) -> (len: usize)
    requires
        file_idx < 11,
    ensures
        len == file_len(file_idx as int),
{
    if file_idx <= 5 {
        6 + file_idx
    } else {
        16 - file_idx
    }
}

/// Display color of the cell at a coordinate.
pub fn cell_color_at(file_idx: usize, rank_idx: usize) -> (c: CellColor)
    requires
        file_idx < 11,
        rank_idx < 11,
    ensures
        c == cell_color(file_idx as int, rank_idx as int),
{
    let beyond: usize = if file_idx > 5 {
        file_idx - 5
    } else {
        0
    };
    let idx: usize = (file_idx + rank_idx + beyond) % 3;
    if idx == 0 {
        CellColor::Dark
    } else if idx == 1 {
        CellColor::Mid
    } else {
        CellColor::Light
    }
}

/// Piece of the starting layout at a coordinate, if any.
pub fn start_piece_at(file_idx: usize, rank_idx: usize) -> (p: Option<Piece>)
    requires
        file_idx < 11,
    ensures
        p == start_piece(file_idx as int, rank_idx as int),
{
    let d: usize = if file_idx <= 5 {
        5 - file_idx
    } else {
        file_idx - 5
    };
    if 1 <= file_idx && file_idx <= 9 && rank_idx == 4 - d {
        Some(Piece { color: PieceColor::White, ptype: PieceType::Pawn })
    } else if 1 <= file_idx && file_idx <= 9 && rank_idx == 6 {
        Some(Piece { color: PieceColor::Black, ptype: PieceType::Pawn })
    } else if file_idx == 5 && (rank_idx == 0 || rank_idx == 1 || rank_idx == 2) {
        Some(Piece { color: PieceColor::White, ptype: PieceType::Bishop })
    } else if file_idx == 5 && (rank_idx == 8 || rank_idx == 9 || rank_idx == 10) {
        Some(Piece { color: PieceColor::Black, ptype: PieceType::Bishop })
    } else if (file_idx == 2 || file_idx == 8) && rank_idx == 0 {
        Some(Piece { color: PieceColor::White, ptype: PieceType::Rook })
    } else if (file_idx == 2 || file_idx == 8) && rank_idx == 7 {
        Some(Piece { color: PieceColor::Black, ptype: PieceType::Rook })
    } else if (file_idx == 3 || file_idx == 7) && rank_idx == 0 {
        Some(Piece { color: PieceColor::White, ptype: PieceType::Knight })
    } else if (file_idx == 3 || file_idx == 7) && rank_idx == 8 {
        Some(Piece { color: PieceColor::Black, ptype: PieceType::Knight })
    } else if file_idx == 4 && rank_idx == 0 {
        Some(Piece { color: PieceColor::White, ptype: PieceType::Queen })
    } else if file_idx == 4 && rank_idx == 9 {
        Some(Piece { color: PieceColor::Black, ptype: PieceType::Queen })
    } else if file_idx == 6 && rank_idx == 0 {
        Some(Piece { color: PieceColor::White, ptype: PieceType::King })
    } else if file_idx == 6 && rank_idx == 9 {
        Some(Piece { color: PieceColor::Black, ptype: PieceType::King })
    } else {
        None
    }
}

/// Builds the canonical starting board: 91 cells over 11 files, colored
/// by the three-coloring formula, with the fixed Glinski starting pieces.
pub fn new_board() -> (b: Board)
    ensures
        board_geom_ok(b),
        forall|f: int, r: int|
            coord_ok(f, r) ==> (#[trigger] cell_at(b, f, r)).piece == start_piece(f, r),
{
    let mut board: Board = Vec::new();
    for f in 0..11usize
        invariant
            board@.len() == f,
            forall|i: int| 0 <= i < f ==> (#[trigger] board@[i]@.len()) == file_len(i),
            forall|i: int, j: int|
                0 <= i < f && 0 <= j < file_len(i) ==> (#[trigger] board@[i]@[j]) == (Cell {
                    coords: Coords { file_idx: i as usize, rank_idx: j as usize },
                    color: cell_color(i, j),
                    piece: start_piece(i, j),
                }),
    {
        let len = file_length(f);
        let mut file: Vec<Cell> = Vec::new();
        for r in 0..len
            invariant
                f < 11,
                len == file_len(f as int),
                file@.len() == r,
                forall|j: int|
                    0 <= j < r ==> (#[trigger] file@[j]) == (Cell {
                        coords: Coords { file_idx: f, rank_idx: j as usize },
                        color: cell_color(f as int, j),
                        piece: start_piece(f as int, j),
                    }),
        {
            file.push(
                Cell {
                    coords: Coords { file_idx: f, rank_idx: r },
                    color: cell_color_at(f, r),
                    piece: start_piece_at(f, r),
                },
            );
        }
        board.push(file);
    }
    board
}

} // verus!
