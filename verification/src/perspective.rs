//! Per-player perspective: each viewer sees the board oriented with
//! their own pieces at low rank indices.
//!
//! The Black viewer's frame mirrors the canonical one: the file index
//! flips across the center and the rank flips within the file.  The
//! transform is its own inverse.

use vstd::prelude::*;

use crate::geometry::{
    board_shape_ok, cell_at, coord_ok, file_len, file_length, piece_at,
};
use crate::models::{Board, Cell, Coords, Move, PieceColor};

verus! {

/// The same cell as seen from the other side of the board:
/// `file' = 10 - file`, `rank' = fileLength(file') - rank - 1`.
pub open spec fn rotate_coords(c: Coords) -> Coords {
    let f = c.file_idx as int;
    let r = c.rank_idx as int;
    Coords { file_idx: (10 - f) as usize, rank_idx: (file_len(10 - f) - 1 - r) as usize }
}

/// A coordinate is valid in one frame iff its rotation is valid in the
/// other, and rotating twice returns the original coordinate: the
/// perspective transform is an involution.
pub proof fn lemma_rotate_involution(c: Coords)
    requires
        coord_ok(c.file_idx as int, c.rank_idx as int),
    ensures
        coord_ok(rotate_coords(c).file_idx as int, rotate_coords(c).rank_idx as int),
        rotate_coords(rotate_coords(c)) == c,
{
}

/// Rotates a coordinate into the opposite viewer's frame.
impl Coords {
    pub fn rotate_board(&self) -> (c: Coords)
        requires
            coord_ok(self.file_idx as int, self.rank_idx as int),
        ensures
            c == rotate_coords(*self),
            coord_ok(c.file_idx as int, c.rank_idx as int),
    {
        let file_idx: usize = 10 - self.file_idx;
        let flen: usize = file_length(file_idx);
        proof {
            lemma_rotate_involution(*self);
        }
        let rank_idx: usize = flen - self.rank_idx - 1;
        Coords { file_idx, rank_idx }
    }
}

/// A move carried into the given viewer's frame: unchanged for White,
/// both endpoints rotated for Black.
pub open spec fn adjust_move(m: Move, player: PieceColor) -> Move {
    match player {
        PieceColor::White => m,
        PieceColor::Black => Move { from: rotate_coords(m.from), to: rotate_coords(m.to) },
    }
}

/// Rewrites a move into the given viewer's frame.
pub fn adjust_last_move(last_move: Move, player: PieceColor) -> (m: Move)
    requires
        crate::moves::move_ok(last_move),
    ensures
        m == adjust_move(last_move, player),
        crate::moves::move_ok(m),
{
    match player {
        PieceColor::White => last_move,
        PieceColor::Black => Move {
            from: last_move.from.rotate_board(),
            to: last_move.to.rotate_board(),
        },
    }
}

/// The canonical coordinate a viewer's coordinate `(f, r)` shows:
/// itself for White, its rotation for Black.
pub open spec fn src_coord(player: PieceColor, f: int, r: int) -> Coords {
    match player {
        PieceColor::White => Coords { file_idx: f as usize, rank_idx: r as usize },
        PieceColor::Black => rotate_coords(Coords { file_idx: f as usize, rank_idx: r as usize }),
    }
}

/// Builds the board as the given player sees it: every cell keeps the
/// piece and color of its canonical source cell but carries its own
/// coordinate in the viewer's frame.
pub fn get_player_board(board: &Board, player: PieceColor) -> (pb: Board)
    requires
        board_shape_ok(*board),
    ensures
        board_shape_ok(pb),
        forall|f: int, r: int|
            coord_ok(f, r) ==> {
                let s = src_coord(player, f, r);
                (#[trigger] cell_at(pb, f, r)).piece == piece_at(
                    *board,
                    s.file_idx as int,
                    s.rank_idx as int,
                ) && cell_at(pb, f, r).color == cell_at(
                    *board,
                    s.file_idx as int,
                    s.rank_idx as int,
                ).color
            },
{
    let mut pb: Board = Vec::new();
    for f in 0..11usize
        invariant
            board_shape_ok(*board),
            pb@.len() == f,
            forall|i: int| 0 <= i < f ==> (#[trigger] pb@[i]@.len()) == file_len(i),
            forall|i: int, j: int|
                0 <= i < f && 0 <= j < file_len(i) ==> {
                    let s = src_coord(player, i, j);
                    (#[trigger] pb@[i]@[j]) == (Cell {
                        coords: Coords { file_idx: i as usize, rank_idx: j as usize },
                        color: cell_at(*board, s.file_idx as int, s.rank_idx as int).color,
                        piece: piece_at(*board, s.file_idx as int, s.rank_idx as int),
                    })
                },
    {
        let flen = file_length(f);
        let mut file: Vec<Cell> = Vec::new();
        for r in 0..flen
            invariant
                board_shape_ok(*board),
                f < 11,
                flen == file_len(f as int),
                file@.len() == r,
                forall|j: int|
                    0 <= j < r ==> {
                        let s = src_coord(player, f as int, j);
                        (#[trigger] file@[j]) == (Cell {
                            coords: Coords { file_idx: f, rank_idx: j as usize },
                            color: cell_at(*board, s.file_idx as int, s.rank_idx as int).color,
                            piece: piece_at(*board, s.file_idx as int, s.rank_idx as int),
                        })
                    },
        {
            let src: Coords = match player {
                PieceColor::White => Coords { file_idx: f, rank_idx: r },
                PieceColor::Black => (Coords { file_idx: f, rank_idx: r }).rotate_board(),
            };
            let cell = board[src.file_idx][src.rank_idx];
            file.push(Cell { coords: Coords { file_idx: f, rank_idx: r }, color: cell.color, piece: cell.piece });
        }
        pb.push(file);
    }
    pb
}

} // verus!
