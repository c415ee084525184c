//! The three skew movement axes and offset arithmetic.
//!
//! Movement on the hexagonal board is expressed along three axes.  Only
//! the rank axis is "straight"; stepping along the other two crosses the
//! board's central file and needs a lateral rank correction proportional
//! to how far the step crosses the center, clamped to the step size.

use vstd::prelude::*;

use crate::geometry::{cell_at, coord_ok};
use crate::models::{Board, Cell};

verus! {

/// One of the three hex movement axes.
///
/// `FileAxis` lowers the file index as the signed distance grows,
/// `RankAxis` changes only the rank, and `AntiFileAxis` raises the file
/// index; the two file-changing axes get mirror-image rank corrections.
#[derive(Clone, Copy, PartialEq, Eq, Structural, Debug)]
pub enum Direction {
    FileAxis,
    RankAxis,
    AntiFileAxis,
}

/// A composite step: up to two axis offsets applied in order.
/// A flat (single-axis) step uses a second offset of distance 0,
/// which leaves the coordinate unchanged.
#[derive(Clone, Copy, PartialEq, Eq, Structural, Debug)]
pub struct StepLine {
    pub d1: Direction,
    pub n1: i32,
    pub d2: Direction,
    pub n2: i32,
}

/// Sign of an integer: -1, 0 or 1.
pub open spec fn sgn(x: int) -> int {
    if x > 0 {
        1
    } else if x < 0 {
        -1
    } else {
        0
    }
}

/// Absolute value of an integer.
pub open spec fn iabs(x: int) -> int {
    if x >= 0 {
        x
    } else {
        -x
    }
}

/// One axis offset applied to a coordinate, as exact integer math.
/// The result may lie off the board; validity is checked at lookup.
///
/// For the file-changing axes, `toward = clamp(0, lean * sgn(n), |n|)`
/// measures how much of the step crosses the central file, where `lean`
/// is `file - 5` for the file axis and `5 - file` for the anti-file
/// axis; the rank shift is `toward` when stepping positively and
/// `|n| - toward` when stepping negatively, applied with the step's sign.
pub open spec fn offset_step(file: int, rank: int, d: Direction, n: int) -> (int, int) {
    match d {
        Direction::FileAxis => {
            let toward = if (file - 5) * sgn(n) < 0 {
                0
            } else if (file - 5) * sgn(n) > iabs(n) {
                iabs(n)
            } else {
                (file - 5) * sgn(n)
            };
            let shift = if n > 0 {
                toward
            } else {
                iabs(n) - toward
            };
            (file - n, rank + shift * sgn(n))
        },
        Direction::RankAxis => (file, rank + n),
        Direction::AntiFileAxis => {
            let toward = if (5 - file) * sgn(n) < 0 {
                0
            } else if (5 - file) * sgn(n) > iabs(n) {
                iabs(n)
            } else {
                (5 - file) * sgn(n)
            };
            let shift = if n > 0 {
                toward
            } else {
                iabs(n) - toward
            };
            (file + n, rank + shift * sgn(n))
        },
    }
}

/// A composite step applied to a coordinate.
pub open spec fn line_step(file: int, rank: int, line: StepLine) -> (int, int) {
    let p = offset_step(file, rank, line.d1, line.n1 as int);
    offset_step(p.0, p.1, line.d2, line.n2 as int)
}

/// How much one axis offset changes the file index; independent of the
/// starting coordinate.
pub open spec fn dir_dfile(d: Direction, n: int) -> int {
    match d {
        Direction::FileAxis => -n,
        Direction::RankAxis => 0,
        Direction::AntiFileAxis => n,
    }
}

/// How much a composite step changes the file index.
pub open spec fn line_dfile(line: StepLine) -> int {
    dir_dfile(line.d1, line.n1 as int) + dir_dfile(line.d2, line.n2 as int)
}

/// A step line whose distances are small, as all the fixed tables are.
pub open spec fn line_small(line: StepLine) -> bool {
    -2 <= line.n1 as int <= 2 && -2 <= line.n2 as int <= 2
}

/// One axis offset, executable.  The coordinate is signed: candidate
/// positions may run off the board before being checked.
pub fn offset(file: i32, rank: i32, d: Direction, n: i32) -> (p: (i32, i32))
    requires
        -18 <= file as int <= 18,
        -18 <= rank as int <= 18,
        -2 <= n as int <= 2,
    ensures
        (p.0 as int, p.1 as int) == offset_step(file as int, rank as int, d, n as int),
        file as int - 2 <= p.0 as int <= file as int + 2,
        rank as int - 2 <= p.1 as int <= rank as int + 2,
{
    match d {
        Direction::FileAxis => axis_offset(file - 5, file - n, rank, n),
        Direction::RankAxis => (file, rank + n),
        Direction::AntiFileAxis => axis_offset(5 - file, file + n, rank, n),
    }
}

/// Shared rank correction of the two file-changing axes: `lean` is how
/// far the coordinate sits past the central file in the axis's own
/// sense, and `new_file` the already-computed destination file.
fn axis_offset(lean: i32, new_file: i32, rank: i32, n: i32) -> (p: (i32, i32))
    requires
        -23 <= lean as int <= 23,
        -20 <= new_file as int <= 20,
        -18 <= rank as int <= 18,
        -2 <= n as int <= 2,
    ensures
        ({
            let toward = if lean as int * sgn(n as int) < 0 {
                0
            } else if lean as int * sgn(n as int) > iabs(n as int) {
                iabs(n as int)
            } else {
                lean as int * sgn(n as int)
            };
            let shift = if n as int > 0 {
                toward
            } else {
                iabs(n as int) - toward
            };
            p.0 as int == new_file as int && p.1 as int == rank as int + shift * sgn(n as int)
        }),
        rank as int - 2 <= p.1 as int <= rank as int + 2,
{
    if n > 0 {
        let toward: i32 = if lean < 0 {
            0
        } else if lean > n {
            n
        } else {
            lean
        };
        (new_file, rank + toward)
    } else if n < 0 {
        let a: i32 = -n;
        let toward: i32 = if -lean < 0 {
            0
        } else if -lean > a {
            a
        } else {
            -lean
        };
        (new_file, rank - (a - toward))
    } else {
        (new_file, rank)
    }
}

/// A composite step, executable.
pub fn apply_line(file: i32, rank: i32, line: StepLine) -> (p: (i32, i32))
    requires
        -14 <= file as int <= 14,
        -14 <= rank as int <= 14,
        line_small(line),
    ensures
        (p.0 as int, p.1 as int) == line_step(file as int, rank as int, line),
        file as int - 4 <= p.0 as int <= file as int + 4,
        rank as int - 4 <= p.1 as int <= rank as int + 4,
{
    let q = offset(file, rank, line.d1, line.n1);
    offset(q.0, q.1, line.d2, line.n2)
}

/// Looks a candidate position up on the board: the cell if the position
/// is a real coordinate, absent otherwise.
pub fn get_cell(board: &Board, file: i32, rank: i32) -> (c: Option<Cell>)
    requires
        crate::geometry::board_shape_ok(*board),
    ensures
        coord_ok(file as int, rank as int) ==> c == Some(cell_at(*board, file as int, rank as int)),
        !coord_ok(file as int, rank as int) ==> c is None,
{
    if file >= 0 && file < 11 {
        let fu = file as usize;
        let flen = crate::geometry::file_length(fu);
        if rank >= 0 && (rank as usize) < flen {
            Some(board[fu][rank as usize])
        } else {
            None
        }
    } else {
        None
    }
}

} // verus!
