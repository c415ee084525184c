//! Directional move generation and move application.
//!
//! Sliding pieces walk rays cell by cell until blocked; leaping pieces
//! (knight, king) probe fixed composite offsets once.  All direction
//! tables are fixed; the board edge silently truncates candidates.

use vstd::prelude::*;

use crate::geometry::{board_geom_ok, board_shape_ok, cell_at, coord_ok, piece_at};
use crate::models::{Board, Cell, Coords, GlobalGame, Move, Moves, Piece, PieceColor, PieceType};
use crate::steps::{apply_line, get_cell, line_small, line_step, Direction, StepLine};

verus! {

/// The twelve sliding directions: six single-axis (flat) rays first,
/// then six two-axis (diagonal) rays, in the engine's fixed order.
pub open spec fn slide_line(i: int) -> StepLine {
    if i == 0 {
        StepLine { d1: Direction::FileAxis, n1: 1, d2: Direction::RankAxis, n2: 0 }
    } else if i == 1 {
        StepLine { d1: Direction::RankAxis, n1: 1, d2: Direction::RankAxis, n2: 0 }
    } else if i == 2 {
        StepLine { d1: Direction::AntiFileAxis, n1: 1, d2: Direction::RankAxis, n2: 0 }
    } else if i == 3 {
        StepLine { d1: Direction::FileAxis, n1: -1i32, d2: Direction::RankAxis, n2: 0 }
    } else if i == 4 {
        StepLine { d1: Direction::RankAxis, n1: -1i32, d2: Direction::RankAxis, n2: 0 }
    } else if i == 5 {
        StepLine { d1: Direction::AntiFileAxis, n1: -1i32, d2: Direction::RankAxis, n2: 0 }
    } else if i == 6 {
        StepLine { d1: Direction::FileAxis, n1: 1, d2: Direction::RankAxis, n2: 1 }
    } else if i == 7 {
        StepLine { d1: Direction::RankAxis, n1: 1, d2: Direction::AntiFileAxis, n2: 1 }
    } else if i == 8 {
        StepLine { d1: Direction::AntiFileAxis, n1: 1, d2: Direction::FileAxis, n2: -1i32 }
    } else if i == 9 {
        StepLine { d1: Direction::FileAxis, n1: -1i32, d2: Direction::RankAxis, n2: -1i32 }
    } else if i == 10 {
        StepLine { d1: Direction::RankAxis, n1: -1i32, d2: Direction::AntiFileAxis, n2: -1i32 }
    } else {
        StepLine { d1: Direction::AntiFileAxis, n1: -1i32, d2: Direction::FileAxis, n2: 1 }
    }
}

/// How far a ray in direction `i` can still run from `(f, r)` before it
/// must leave the board: the slack of the coordinate it pushes against.
pub open spec fn slide_room(i: int, f: int, r: int) -> int {
    if i == 1 {
        10 - r
    } else if i == 4 {
        r
    } else if i == 0 || i == 5 || i == 6 || i == 10 || i == 11 {
        f
    } else {
        10 - f
    }
}

/// Each sliding step strictly uses up the room of its direction, so a
/// ray can only take finitely many steps.
pub proof fn lemma_slide_progress(i: int, f: int, r: int)
    requires
        0 <= i < 12,
    ensures
        ({
            let p = line_step(f, r, slide_line(i));
            slide_room(i, p.0, p.1) < slide_room(i, f, r)
        }),
{
}

/// The destinations of one ray: successive composite steps from the
/// start, taking empty cells, stopping at the board edge or at the
/// first occupied cell, which is kept iff it holds an opposing piece.
pub open spec fn ray_seq(b: Board, c: PieceColor, f: int, r: int, i: int) -> Seq<Coords>
    decreases slide_room(i, f, r),
        when 0 <= i < 12 && coord_ok(f, r)
{
    let p = line_step(f, r, slide_line(i));
    if !coord_ok(p.0, p.1) {
        Seq::empty()
    } else if piece_at(b, p.0, p.1) is None {
        seq![Coords { file_idx: p.0 as usize, rank_idx: p.1 as usize }] + ray_seq(
            b,
            c,
            p.0,
            p.1,
            i,
        )
    } else if cell_at(b, p.0, p.1).spec_is_attackable_by(c) {
        seq![Coords { file_idx: p.0 as usize, rank_idx: p.1 as usize }]
    } else {
        Seq::empty()
    }
}

/// The sliding direction with the given index, executable.
pub fn slide_line_at(i: usize) -> (l: StepLine)
    requires
        i < 12,
    ensures
        l == slide_line(i as int),
        line_small(l),
{
    if i == 0 {
        StepLine { d1: Direction::FileAxis, n1: 1, d2: Direction::RankAxis, n2: 0 }
    } else if i == 1 {
        StepLine { d1: Direction::RankAxis, n1: 1, d2: Direction::RankAxis, n2: 0 }
    } else if i == 2 {
        StepLine { d1: Direction::AntiFileAxis, n1: 1, d2: Direction::RankAxis, n2: 0 }
    } else if i == 3 {
        StepLine { d1: Direction::FileAxis, n1: -1, d2: Direction::RankAxis, n2: 0 }
    } else if i == 4 {
        StepLine { d1: Direction::RankAxis, n1: -1, d2: Direction::RankAxis, n2: 0 }
    } else if i == 5 {
        StepLine { d1: Direction::AntiFileAxis, n1: -1, d2: Direction::RankAxis, n2: 0 }
    } else if i == 6 {
        StepLine { d1: Direction::FileAxis, n1: 1, d2: Direction::RankAxis, n2: 1 }
    } else if i == 7 {
        StepLine { d1: Direction::RankAxis, n1: 1, d2: Direction::AntiFileAxis, n2: 1 }
    } else if i == 8 {
        StepLine { d1: Direction::AntiFileAxis, n1: 1, d2: Direction::FileAxis, n2: -1 }
    } else if i == 9 {
        StepLine { d1: Direction::FileAxis, n1: -1, d2: Direction::RankAxis, n2: -1 }
    } else if i == 10 {
        StepLine { d1: Direction::RankAxis, n1: -1, d2: Direction::AntiFileAxis, n2: -1 }
    } else {
        StepLine { d1: Direction::AntiFileAxis, n1: -1, d2: Direction::FileAxis, n2: 1 }
    }
}

/// Walks one ray and appends its destinations.
pub fn walk_ray(board: &Board, color: PieceColor, start: Coords, li: usize, dest: &mut Vec<Coords>)
    requires
        board_shape_ok(*board),
        coord_ok(start.file_idx as int, start.rank_idx as int),
        li < 12,
    ensures
        final(dest)@ == old(dest)@ + ray_seq(
            *board,
            color,
            start.file_idx as int,
            start.rank_idx as int,
            li as int,
        ),
{
    let line = slide_line_at(li);
    let mut pf: i32 = start.file_idx as i32;
    let mut pr: i32 = start.rank_idx as i32;
    let ghost mut taken: Seq<Coords> = Seq::empty();
    let ghost f0 = start.file_idx as int;
    let ghost r0 = start.rank_idx as int;
    loop
        invariant_except_break
            board_shape_ok(*board),
            li < 12,
            line == slide_line(li as int),
            line_small(line),
            coord_ok(pf as int, pr as int),
            dest@ == old(dest)@ + taken,
            ray_seq(*board, color, f0, r0, li as int) == taken + ray_seq(
                *board,
                color,
                pf as int,
                pr as int,
                li as int,
            ),
        ensures
            dest@ == old(dest)@ + ray_seq(*board, color, f0, r0, li as int),
        decreases slide_room(li as int, pf as int, pr as int),
    {
        let (nf, nr) = apply_line(pf, pr, line);
        proof {
            lemma_slide_progress(li as int, pf as int, pr as int);
        }
        match get_cell(board, nf, nr) {
            None => {
                proof {
                    assert(ray_seq(*board, color, pf as int, pr as int, li as int)
                        =~= Seq::<Coords>::empty());
                    assert(dest@ =~= old(dest)@ + ray_seq(*board, color, f0, r0, li as int));
                }
                break ;
            },
            Some(cell) => {
                if cell.is_empty() {
                    dest.push(cell.coords);
                    proof {
                        assert(ray_seq(*board, color, pf as int, pr as int, li as int) == seq![
                            cell.coords,
                        ] + ray_seq(*board, color, nf as int, nr as int, li as int));
                        taken = taken + seq![cell.coords];
                        assert(ray_seq(*board, color, f0, r0, li as int) =~= taken + ray_seq(
                            *board,
                            color,
                            nf as int,
                            nr as int,
                            li as int,
                        ));
                    }
                    pf = nf;
                    pr = nr;
                } else if cell.is_attackable_by(color) {
                    dest.push(cell.coords);
                    proof {
                        assert(ray_seq(*board, color, pf as int, pr as int, li as int) =~= seq![
                            cell.coords,
                        ]);
                        assert(dest@ =~= old(dest)@ + ray_seq(*board, color, f0, r0, li as int));
                    }
                    break ;
                } else {
                    proof {
                        assert(ray_seq(*board, color, pf as int, pr as int, li as int)
                            =~= Seq::<Coords>::empty());
                        assert(dest@ =~= old(dest)@ + ray_seq(*board, color, f0, r0, li as int));
                    }
                    break ;
                }
            },
        }
    }
}


/// The twelve knight offsets: two steps along one axis composed with
/// one step along another, in the engine's fixed order.
pub open spec fn knight_line(i: int) -> StepLine {
    if i == 0 {
        StepLine { d1: Direction::FileAxis, n1: 2, d2: Direction::AntiFileAxis, n2: -1i32 }
    } else if i == 1 {
        StepLine { d1: Direction::FileAxis, n1: 2, d2: Direction::RankAxis, n2: 1 }
    } else if i == 2 {
        StepLine { d1: Direction::RankAxis, n1: 2, d2: Direction::FileAxis, n2: 1 }
    } else if i == 3 {
        StepLine { d1: Direction::RankAxis, n1: 2, d2: Direction::AntiFileAxis, n2: 1 }
    } else if i == 4 {
        StepLine { d1: Direction::AntiFileAxis, n1: 2, d2: Direction::RankAxis, n2: 1 }
    } else if i == 5 {
        StepLine { d1: Direction::AntiFileAxis, n1: 2, d2: Direction::FileAxis, n2: -1i32 }
    } else if i == 6 {
        StepLine { d1: Direction::FileAxis, n1: -2i32, d2: Direction::AntiFileAxis, n2: 1 }
    } else if i == 7 {
        StepLine { d1: Direction::FileAxis, n1: -2i32, d2: Direction::RankAxis, n2: -1i32 }
    } else if i == 8 {
        StepLine { d1: Direction::RankAxis, n1: -2i32, d2: Direction::FileAxis, n2: -1i32 }
    } else if i == 9 {
        StepLine { d1: Direction::RankAxis, n1: -2i32, d2: Direction::AntiFileAxis, n2: -1i32 }
    } else if i == 10 {
        StepLine { d1: Direction::AntiFileAxis, n1: -2i32, d2: Direction::RankAxis, n2: -1i32 }
    } else {
        StepLine { d1: Direction::AntiFileAxis, n1: -2i32, d2: Direction::FileAxis, n2: 1 }
    }
}

/// The knight offset with the given index, executable.
pub fn knight_line_at(i: usize) -> (l: StepLine)
    requires
        i < 12,
    ensures
        l == knight_line(i as int),
        line_small(l),
{
    if i == 0 {
        StepLine { d1: Direction::FileAxis, n1: 2, d2: Direction::AntiFileAxis, n2: -1 }
    } else if i == 1 {
        StepLine { d1: Direction::FileAxis, n1: 2, d2: Direction::RankAxis, n2: 1 }
    } else if i == 2 {
        StepLine { d1: Direction::RankAxis, n1: 2, d2: Direction::FileAxis, n2: 1 }
    } else if i == 3 {
        StepLine { d1: Direction::RankAxis, n1: 2, d2: Direction::AntiFileAxis, n2: 1 }
    } else if i == 4 {
        StepLine { d1: Direction::AntiFileAxis, n1: 2, d2: Direction::RankAxis, n2: 1 }
    } else if i == 5 {
        StepLine { d1: Direction::AntiFileAxis, n1: 2, d2: Direction::FileAxis, n2: -1 }
    } else if i == 6 {
        StepLine { d1: Direction::FileAxis, n1: -2, d2: Direction::AntiFileAxis, n2: 1 }
    } else if i == 7 {
        StepLine { d1: Direction::FileAxis, n1: -2, d2: Direction::RankAxis, n2: -1 }
    } else if i == 8 {
        StepLine { d1: Direction::RankAxis, n1: -2, d2: Direction::FileAxis, n2: -1 }
    } else if i == 9 {
        StepLine { d1: Direction::RankAxis, n1: -2, d2: Direction::AntiFileAxis, n2: -1 }
    } else if i == 10 {
        StepLine { d1: Direction::AntiFileAxis, n1: -2, d2: Direction::RankAxis, n2: -1 }
    } else {
        StepLine { d1: Direction::AntiFileAxis, n1: -2, d2: Direction::FileAxis, n2: 1 }
    }
}

/// The destination one leaping probe contributes: the stepped-to cell
/// if it exists and is empty or holds an opposing piece.
pub open spec fn leap_entry(b: Board, c: PieceColor, f: int, r: int, line: StepLine) -> Seq<
    Coords,
> {
    let p = line_step(f, r, line);
    if coord_ok(p.0, p.1) && (piece_at(b, p.0, p.1) is None || cell_at(
        b,
        p.0,
        p.1,
    ).spec_is_attackable_by(c)) {
        seq![Coords { file_idx: p.0 as usize, rank_idx: p.1 as usize }]
    } else {
        Seq::empty()
    }
}

/// King destinations from probe `i` on: one step along each of the
/// twelve sliding directions.
pub open spec fn king_dests_from(b: Board, c: PieceColor, f: int, r: int, i: int) -> Seq<Coords>
    decreases 12 - i,
{
    if i >= 12 {
        Seq::empty()
    } else {
        leap_entry(b, c, f, r, slide_line(i)) + king_dests_from(b, c, f, r, i + 1)
    }
}

/// Knight destinations from probe `i` on: the twelve fixed composite
/// offsets, non-sliding.
pub open spec fn knight_dests_from(b: Board, c: PieceColor, f: int, r: int, i: int) -> Seq<Coords>
    decreases 12 - i,
{
    if i >= 12 {
        Seq::empty()
    } else {
        leap_entry(b, c, f, r, knight_line(i)) + knight_dests_from(b, c, f, r, i + 1)
    }
}

/// Destinations of the rays with indices `i..hi`, concatenated in order.
pub open spec fn slide_dests_from(
    b: Board,
    c: PieceColor,
    f: int,
    r: int,
    i: int,
    hi: int,
) -> Seq<Coords>
    decreases hi - i,
{
    if i >= hi {
        Seq::empty()
    } else {
        ray_seq(b, c, f, r, i) + slide_dests_from(b, c, f, r, i + 1, hi)
    }
}

/// The rank a pawn of either color starts on within its file, in that
/// color's own perspective: `4 - |file - 5|`.
pub open spec fn pawn_start_rank(f: int) -> int {
    4 - (if f <= 5 {
        5 - f
    } else {
        f - 5
    })
}

/// Pawn destinations: one step forward along the rank axis onto an
/// empty cell; a second step from the starting rank if both cells are
/// empty; and the two diagonal-forward cells when they hold an
/// opposing piece.
pub open spec fn pawn_dests(b: Board, c: PieceColor, f: int, r: int) -> Seq<Coords> {
    let fwd = if coord_ok(f, r + 1) && piece_at(b, f, r + 1) is None {
        seq![Coords { file_idx: f as usize, rank_idx: (r + 1) as usize }] + (if r
            == pawn_start_rank(f) && coord_ok(f, r + 2) && piece_at(b, f, r + 2) is None {
            seq![Coords { file_idx: f as usize, rank_idx: (r + 2) as usize }]
        } else {
            Seq::empty()
        })
    } else {
        Seq::empty()
    };
    let p1 = crate::steps::offset_step(f, r, Direction::FileAxis, 1);
    let cap1 = if coord_ok(p1.0, p1.1) && cell_at(b, p1.0, p1.1).spec_is_attackable_by(c) {
        seq![Coords { file_idx: p1.0 as usize, rank_idx: p1.1 as usize }]
    } else {
        Seq::empty()
    };
    let p2 = crate::steps::offset_step(f, r, Direction::AntiFileAxis, 1);
    let cap2 = if coord_ok(p2.0, p2.1) && cell_at(b, p2.0, p2.1).spec_is_attackable_by(c) {
        seq![Coords { file_idx: p2.0 as usize, rank_idx: p2.1 as usize }]
    } else {
        Seq::empty()
    };
    fwd + cap1 + cap2
}

/// Every destination the piece at `(f, r)` can reach on this board,
/// ignoring whose turn it is.
pub open spec fn piece_dests(b: Board, piece: Piece, f: int, r: int) -> Seq<Coords> {
    match piece.ptype {
        PieceType::Rook => slide_dests_from(b, piece.color, f, r, 0, 6),
        PieceType::Bishop => slide_dests_from(b, piece.color, f, r, 6, 12),
        PieceType::Queen => slide_dests_from(b, piece.color, f, r, 0, 12),
        PieceType::King => king_dests_from(b, piece.color, f, r, 0),
        PieceType::Knight => knight_dests_from(b, piece.color, f, r, 0),
        PieceType::Pawn => pawn_dests(b, piece.color, f, r),
    }
}

/// Walks the rays with indices `lo..hi` and appends their destinations.
fn walk_rays(
    board: &Board,
    color: PieceColor,
    start: Coords,
    lo: usize,
    hi: usize,
    dest: &mut Vec<Coords>,
)
    requires
        board_shape_ok(*board),
        coord_ok(start.file_idx as int, start.rank_idx as int),
        lo <= hi <= 12,
    ensures
        final(dest)@ == old(dest)@ + slide_dests_from(
            *board,
            color,
            start.file_idx as int,
            start.rank_idx as int,
            lo as int,
            hi as int,
        ),
{
    let ghost f0 = start.file_idx as int;
    let ghost r0 = start.rank_idx as int;
    let ghost mut taken: Seq<Coords> = Seq::empty();
    let mut i: usize = lo;
    while i < hi
        invariant
            board_shape_ok(*board),
            coord_ok(f0, r0),
            start.file_idx as int == f0,
            start.rank_idx as int == r0,
            lo <= i <= hi <= 12,
            dest@ == old(dest)@ + taken,
            slide_dests_from(*board, color, f0, r0, lo as int, hi as int) == taken
                + slide_dests_from(*board, color, f0, r0, i as int, hi as int),
        decreases hi - i,
    {
        walk_ray(board, color, start, i, dest);
        proof {
            taken = taken + ray_seq(*board, color, f0, r0, i as int);
            assert(slide_dests_from(*board, color, f0, r0, lo as int, hi as int) =~= taken
                + slide_dests_from(*board, color, f0, r0, i + 1, hi as int));
        }
        i = i + 1;
    }
    proof {
        assert(slide_dests_from(*board, color, f0, r0, hi as int, hi as int)
            =~= Seq::<Coords>::empty());
        assert(dest@ =~= old(dest)@ + slide_dests_from(
            *board,
            color,
            f0,
            r0,
            lo as int,
            hi as int,
        ));
    }
}


/// Probes the twelve king or knight offsets and appends the reachable
/// destinations.  `knight` selects the offset table.
fn probe_leaps(
    board: &Board,
    color: PieceColor,
    start: Coords,
    knight: bool,
    dest: &mut Vec<Coords>,
)
    requires
        board_shape_ok(*board),
        coord_ok(start.file_idx as int, start.rank_idx as int),
    ensures
        final(dest)@ == old(dest)@ + (if knight {
            knight_dests_from(*board, color, start.file_idx as int, start.rank_idx as int, 0)
        } else {
            king_dests_from(*board, color, start.file_idx as int, start.rank_idx as int, 0)
        }),
{
    let ghost f0 = start.file_idx as int;
    let ghost r0 = start.rank_idx as int;
    let ghost mut taken: Seq<Coords> = Seq::empty();
    let cf: i32 = start.file_idx as i32;
    let cr: i32 = start.rank_idx as i32;
    let mut i: usize = 0;
    while i < 12
        invariant
            board_shape_ok(*board),
            coord_ok(f0, r0),
            cf as int == f0,
            cr as int == r0,
            i <= 12,
            dest@ == old(dest)@ + taken,
            (if knight {
                knight_dests_from(*board, color, f0, r0, 0)
            } else {
                king_dests_from(*board, color, f0, r0, 0)
            }) == taken + (if knight {
                knight_dests_from(*board, color, f0, r0, i as int)
            } else {
                king_dests_from(*board, color, f0, r0, i as int)
            }),
        decreases 12 - i,
    {
        let line = if knight {
            knight_line_at(i)
        } else {
            slide_line_at(i)
        };
        let (nf, nr) = apply_line(cf, cr, line);
        match get_cell(board, nf, nr) {
            Some(cell) => {
                if cell.is_empty() || cell.is_attackable_by(color) {
                    dest.push(cell.coords);
                    proof {
                        taken = taken + seq![cell.coords];
                    }
                }
            },
            None => {},
        }
        proof {
            if knight {
                assert(knight_dests_from(*board, color, f0, r0, i as int) == leap_entry(
                    *board,
                    color,
                    f0,
                    r0,
                    knight_line(i as int),
                ) + knight_dests_from(*board, color, f0, r0, i + 1));
                assert(knight_dests_from(*board, color, f0, r0, 0) =~= taken
                    + knight_dests_from(*board, color, f0, r0, i + 1));
            } else {
                assert(king_dests_from(*board, color, f0, r0, i as int) == leap_entry(
                    *board,
                    color,
                    f0,
                    r0,
                    slide_line(i as int),
                ) + king_dests_from(*board, color, f0, r0, i + 1));
                assert(king_dests_from(*board, color, f0, r0, 0) =~= taken + king_dests_from(
                    *board,
                    color,
                    f0,
                    r0,
                    i + 1,
                ));
            }
        }
        i = i + 1;
    }
    proof {
        assert(dest@ =~= old(dest)@ + (if knight {
            knight_dests_from(*board, color, f0, r0, 0)
        } else {
            king_dests_from(*board, color, f0, r0, 0)
        }));
    }
}

/// All destinations reachable by the given piece from `coords` on this
/// board, in the engine's fixed direction order, ignoring turn.
pub fn get_available_moves_for_piece(board: &Board, piece: Piece, coords: Coords) -> (dest: Vec<
    Coords,
>)
    requires
        board_shape_ok(*board),
        coord_ok(coords.file_idx as int, coords.rank_idx as int),
    ensures
        dest@ == piece_dests(*board, piece, coords.file_idx as int, coords.rank_idx as int),
{
    let ghost f0 = coords.file_idx as int;
    let ghost r0 = coords.rank_idx as int;
    let mut dest: Vec<Coords> = Vec::new();
    match piece.ptype {
        PieceType::Rook => {
            walk_rays(board, piece.color, coords, 0, 6, &mut dest);
        },
        PieceType::Bishop => {
            walk_rays(board, piece.color, coords, 6, 12, &mut dest);
        },
        PieceType::Queen => {
            walk_rays(board, piece.color, coords, 0, 12, &mut dest);
        },
        PieceType::King => {
            probe_leaps(board, piece.color, coords, false, &mut dest);
        },
        PieceType::Knight => {
            probe_leaps(board, piece.color, coords, true, &mut dest);
        },
        PieceType::Pawn => {
            let cf: i32 = coords.file_idx as i32;
            let cr: i32 = coords.rank_idx as i32;
            let (f1, r1) = crate::steps::offset(cf, cr, Direction::RankAxis, 1);
            match get_cell(board, f1, r1) {
                Some(cell) => {
                    if cell.is_empty() {
                        dest.push(cell.coords);
                        let dist: i32 = if cf >= 5 {
                            cf - 5
                        } else {
                            5 - cf
                        };
                        if cr == 4 - dist {
                            let (f2, r2) = crate::steps::offset(cf, cr, Direction::RankAxis, 2);
                            match get_cell(board, f2, r2) {
                                Some(cell2) => {
                                    if cell2.is_empty() {
                                        dest.push(cell2.coords);
                                    }
                                },
                                None => {},
                            }
                        }
                    }
                },
                None => {},
            }
            let (a1, b1) = crate::steps::offset(cf, cr, Direction::FileAxis, 1);
            match get_cell(board, a1, b1) {
                Some(cell) => {
                    if cell.is_attackable_by(piece.color) {
                        dest.push(cell.coords);
                    }
                },
                None => {},
            }
            let (a2, b2) = crate::steps::offset(cf, cr, Direction::AntiFileAxis, 1);
            match get_cell(board, a2, b2) {
                Some(cell) => {
                    if cell.is_attackable_by(piece.color) {
                        dest.push(cell.coords);
                    }
                },
                None => {},
            }
            proof {
                assert(dest@ =~= pawn_dests(*board, piece.color, f0, r0));
            }
        },
    }
    dest
}


/// The color that made the given last move: the color of the piece now
/// standing on that move's destination; before any move exists, Black,
/// so that White moves first.
pub open spec fn prev_mover(b: Board, last_move: Option<Move>) -> PieceColor {
    match last_move {
        None => PieceColor::Black,
        Some(m) => match piece_at(b, m.to.file_idx as int, m.to.rank_idx as int) {
            Some(p) => p.color,
            None => PieceColor::Black,
        },
    }
}

/// The cells of one file holding a piece of color `c`, from rank `r` up.
pub open spec fn file_player_cells(b: Board, c: PieceColor, f: int, r: int) -> Seq<Coords>
    decreases crate::geometry::file_len(f) - r,
{
    if r < 0 || r >= crate::geometry::file_len(f) {
        Seq::empty()
    } else {
        let rest = file_player_cells(b, c, f, r + 1);
        match piece_at(b, f, r) {
            Some(p) => if p.color == c {
                seq![Coords { file_idx: f as usize, rank_idx: r as usize }] + rest
            } else {
                rest
            },
            None => rest,
        }
    }
}

/// The cells holding a piece of color `c`, file-major, from file `f` up.
pub open spec fn board_player_cells(b: Board, c: PieceColor, f: int) -> Seq<Coords>
    decreases 11 - f,
{
    if f < 0 || f >= 11 {
        Seq::empty()
    } else {
        file_player_cells(b, c, f, 0) + board_player_cells(b, c, f + 1)
    }
}

/// Every cell holding a piece of color `c`, in file-major order.
pub open spec fn player_cells(b: Board, c: PieceColor) -> Seq<Coords> {
    board_player_cells(b, c, 0)
}

/// Entry `k` of the move list names source `froms[k]` and exactly the
/// destinations the piece standing there can reach.
pub open spec fn moves_match_at(b: Board, ms: Seq<Moves>, froms: Seq<Coords>, k: int) -> bool {
    let src = froms[k];
    &&& ms[k].from == src
    &&& match piece_at(b, src.file_idx as int, src.rank_idx as int) {
        Some(p) => ms[k].to@ == piece_dests(b, p, src.file_idx as int, src.rank_idx as int),
        None => false,
    }
}

/// The move list `ms` gives, for each source in `froms` in order, that
/// source and exactly the destinations its piece can reach.
pub open spec fn moves_match(b: Board, ms: Seq<Moves>, froms: Seq<Coords>) -> bool {
    &&& ms.len() == froms.len()
    &&& forall|k: int| 0 <= k < ms.len() ==> #[trigger] moves_match_at(b, ms, froms, k)
}

/// Lists, for the given player, every piece of theirs with the
/// destinations it can reach — empty when it is not that player's turn,
/// inferred from the last move (White moves first).
pub fn get_available_moves(board: &Board, player: PieceColor, last_move: Option<Move>) -> (moves:
    Vec<Moves>)
    requires
        board_shape_ok(*board),
        match last_move {
            Some(m) => coord_ok(m.to.file_idx as int, m.to.rank_idx as int) && piece_at(
                *board,
                m.to.file_idx as int,
                m.to.rank_idx as int,
            ) is Some,
            None => true,
        },
    ensures
        player == prev_mover(*board, last_move) ==> moves@.len() == 0,
        player != prev_mover(*board, last_move) ==> moves_match(
            *board,
            moves@,
            player_cells(*board, player),
        ),
{
    let prev: PieceColor = match last_move {
        None => PieceColor::Black,
        Some(m) => {
            let cell = board[m.to.file_idx][m.to.rank_idx];
            match cell.piece {
                Some(p) => p.color,
                None => PieceColor::Black,
            }
        },
    };
    let mut moves: Vec<Moves> = Vec::new();
    if player == prev {
        return moves;
    }
    let ghost mut froms: Seq<Coords> = Seq::empty();
    let mut f: usize = 0;
    while f < 11
        invariant
            board_shape_ok(*board),
            f <= 11,
            moves_match(*board, moves@, froms),
            player_cells(*board, player) == froms + board_player_cells(*board, player, f as int),
        decreases 11 - f,
    {
        let flen = crate::geometry::file_length(f);
        proof {
            assert(board_player_cells(*board, player, f as int) == file_player_cells(
                *board,
                player,
                f as int,
                0,
            ) + board_player_cells(*board, player, f as int + 1));
        }
        let mut r: usize = 0;
        while r < flen
            invariant
                board_shape_ok(*board),
                f < 11,
                flen == crate::geometry::file_len(f as int),
                r <= flen,
                moves_match(*board, moves@, froms),
                player_cells(*board, player) == froms + file_player_cells(
                    *board,
                    player,
                    f as int,
                    r as int,
                ) + board_player_cells(*board, player, f as int + 1),
            decreases flen - r,
        {
            let cell = board[f][r];
            match cell.piece {
                Some(p) => {
                    if p.color == player {
                        let to = get_available_moves_for_piece(board, p, cell.coords);
                        let ghost ms0 = moves@;
                        let ghost froms0 = froms;
                        moves.push(Moves { from: cell.coords, to });
                        proof {
                            froms = froms0 + seq![cell.coords];
                            assert(cell.coords == (Coords { file_idx: f, rank_idx: r }));
                            assert(piece_at(*board, f as int, r as int) == Some(p));
                            assert forall|k: int|
                                0 <= k < moves@.len() implies #[trigger] moves_match_at(
                                *board,
                                moves@,
                                froms,
                                k,
                            ) by {
                                if k < ms0.len() {
                                    assert(moves@[k] == ms0[k]);
                                    assert(froms[k] == froms0[k]);
                                    assert(moves_match_at(*board, ms0, froms0, k));
                                } else {
                                    assert(froms[k] == cell.coords);
                                    assert(moves@[k].from == cell.coords);
                                    assert(moves@[k].to@ == piece_dests(
                                        *board,
                                        p,
                                        f as int,
                                        r as int,
                                    ));
                                }
                            }
                            assert(moves_match(*board, moves@, froms));
                        }
                    }
                },
                None => {},
            }
            proof {
                assert(player_cells(*board, player) =~= froms + file_player_cells(
                    *board,
                    player,
                    f as int,
                    r as int + 1,
                ) + board_player_cells(*board, player, f as int + 1));
            }
            r = r + 1;
        }
        proof {
            assert(file_player_cells(*board, player, f as int, flen as int)
                =~= Seq::<Coords>::empty());
            assert(player_cells(*board, player) =~= froms + board_player_cells(
                *board,
                player,
                f as int + 1,
            ));
        }
        f = f + 1;
    }
    proof {
        assert(board_player_cells(*board, player, 11) =~= Seq::<Coords>::empty());
        assert(froms =~= player_cells(*board, player));
    }
    moves
}

/// Both endpoints of a move address real cells.
pub open spec fn move_ok(m: Move) -> bool {
    coord_ok(m.from.file_idx as int, m.from.rank_idx as int) && coord_ok(
        m.to.file_idx as int,
        m.to.rank_idx as int,
    )
}

impl GlobalGame {
    /// Well-formed shared game: a well-shaped board, exactly two seats,
    /// every recorded move on the board, and the piece that moved last
    /// still standing on its destination, so the turn can be inferred.
    pub open spec fn wf(self) -> bool {
        &&& board_geom_ok(self.board)
        &&& self.sessions@.len() == 2
        &&& forall|k: int| 0 <= k < self.history@.len() ==> move_ok(#[trigger] self.history@[k])
        &&& self.history@.len() > 0 ==> piece_at(
            self.board,
            self.history@.last().to.file_idx as int,
            self.history@.last().to.rank_idx as int,
        ) is Some
    }

    /// The last move of the history, if any.
    pub open spec fn last_move(self) -> Option<Move> {
        if self.history@.len() == 0 {
            None
        } else {
            Some(self.history@.last())
        }
    }

    /// Whose turn it is: the opposite of the color that moved last;
    /// White before any move exists.
    pub open spec fn turn(self) -> PieceColor {
        prev_mover(self.board, self.last_move()).spec_opposite()
    }

    /// Commits a move to the canonical board and history: the occupant
    /// of the source replaces whatever stood on the destination and the
    /// source is cleared.  The move is trusted to be the mover's; the
    /// caller gates turn order and occupancy first.
    pub fn try_apply_move(&mut self, game_move: Move) -> (ok: bool)
        requires
            old(self).wf(),
            move_ok(game_move),
            piece_at(old(self).board, game_move.from.file_idx as int, game_move.from.rank_idx as int) is Some,
            game_move.from != game_move.to,
        ensures
            ok,
            final(self).wf(),
            final(self).sessions == old(self).sessions,
            final(self).history@ == old(self).history@.push(game_move),
            board_geom_ok(final(self).board),
            piece_at(final(self).board, game_move.to.file_idx as int, game_move.to.rank_idx as int)
                == piece_at(
                old(self).board,
                game_move.from.file_idx as int,
                game_move.from.rank_idx as int,
            ),
            piece_at(
                final(self).board,
                game_move.from.file_idx as int,
                game_move.from.rank_idx as int,
            ) is None,
            forall|f: int, r: int|
                coord_ok(f, r) && !(f == game_move.from.file_idx as int && r
                    == game_move.from.rank_idx as int) && !(f == game_move.to.file_idx as int && r
                    == game_move.to.rank_idx as int) ==> #[trigger] cell_at(final(self).board, f, r)
                    == cell_at(old(self).board, f, r),
            final(self).turn() == piece_at(
                old(self).board,
                game_move.from.file_idx as int,
                game_move.from.rank_idx as int,
            ).unwrap().color.spec_opposite(),
    {
        let from = game_move.from;
        let to = game_move.to;
        let p = board_piece(&self.board, from);
        let toc = self.board[to.file_idx][to.rank_idx];
        self.board[to.file_idx].set(
            to.rank_idx,
            Cell { coords: toc.coords, color: toc.color, piece: p },
        );
        let fromc = self.board[from.file_idx][from.rank_idx];
        self.board[from.file_idx].set(
            from.rank_idx,
            Cell { coords: fromc.coords, color: fromc.color, piece: None },
        );
        self.history.push(game_move);
        true
    }
}

/// The piece on the cell a valid coordinate addresses.
pub fn board_piece(board: &Board, at: Coords) -> (p: Option<Piece>)
    requires
        board_shape_ok(*board),
        coord_ok(at.file_idx as int, at.rank_idx as int),
    ensures
        p == piece_at(*board, at.file_idx as int, at.rank_idx as int),
{
    board[at.file_idx][at.rank_idx].piece
}


/// The position `n` composite steps along a line from a start.
pub open spec fn line_step_n(f: int, r: int, line: StepLine, n: nat) -> (int, int)
    decreases n,
{
    if n == 0 {
        (f, r)
    } else {
        let p = line_step_n(f, r, line, (n - 1) as nat);
        line_step(p.0, p.1, line)
    }
}

/// Stepping `n + 1` times from a start is stepping `n` times from the
/// first step's target.
proof fn lemma_line_step_n_shift(f: int, r: int, line: StepLine, n: nat)
    ensures
        line_step_n(f, r, line, n + 1) == ({
            let p = line_step(f, r, line);
            line_step_n(p.0, p.1, line, n)
        }),
    decreases n,
{
    let p = line_step(f, r, line);
    if n == 0 {
        assert(line_step_n(f, r, line, 1) == ({
            let q = line_step_n(f, r, line, 0);
            line_step(q.0, q.1, line)
        }));
    } else {
        lemma_line_step_n_shift(f, r, line, (n - 1) as nat);
        let a = line_step_n(f, r, line, n);
        let a1 = line_step_n(f, r, line, (n - 1) as nat);
        let b1 = line_step_n(p.0, p.1, line, (n - 1) as nat);
        assert(a == line_step(a1.0, a1.1, line));
        assert(line_step_n(f, r, line, n + 1) == line_step(a.0, a.1, line));
        assert(line_step_n(p.0, p.1, line, n) == line_step(b1.0, b1.1, line));
    }
}

/// How a well-formed ray behaves: its destinations are the successive
/// step targets from the start, all of them real cells; every
/// destination before the last is an empty cell; the ray ends at the
/// board edge or at the first occupied cell, and that cell belongs to
/// the ray if and only if it holds an opposing piece.
pub open spec fn ray_stops_properly(b: Board, c: PieceColor, f: int, r: int, i: int) -> bool {
    let ray = ray_seq(b, c, f, r, i);
    let line = slide_line(i);
    &&& forall|k: int|
        0 <= k < ray.len() ==> coord_ok(
            (#[trigger] ray[k]).file_idx as int,
            ray[k].rank_idx as int,
        )
    &&& forall|k: int|
        0 <= k < ray.len() ==> ({
            let p = line_step_n(f, r, line, (k + 1) as nat);
            p.0 == (#[trigger] ray[k]).file_idx as int && p.1 == ray[k].rank_idx as int
        })
    &&& forall|k: int|
        0 <= k < ray.len() - 1 ==> piece_at(
            b,
            (#[trigger] ray[k]).file_idx as int,
            ray[k].rank_idx as int,
        ) is None
    &&& ray.len() > 0 ==> (piece_at(b, ray.last().file_idx as int, ray.last().rank_idx as int)
        is None || cell_at(
        b,
        ray.last().file_idx as int,
        ray.last().rank_idx as int,
    ).spec_is_attackable_by(c))
    &&& ray.len() > 0 && piece_at(b, ray.last().file_idx as int, ray.last().rank_idx as int)
        is Some ==> cell_at(
        b,
        ray.last().file_idx as int,
        ray.last().rank_idx as int,
    ).spec_is_attackable_by(c)
    &&& (ray.len() == 0 || piece_at(b, ray.last().file_idx as int, ray.last().rank_idx as int)
        is None) ==> ({
        let q = line_step_n(f, r, line, (ray.len() + 1) as nat);
        !coord_ok(q.0, q.1) || (piece_at(b, q.0, q.1) is Some && !cell_at(
            b,
            q.0,
            q.1,
        ).spec_is_attackable_by(c))
    })
}

/// Each ray satisfies `ray_stops_properly`: it stops at the first
/// occupied cell and keeps that cell exactly when it can be captured.
#[verifier::rlimit(100)]
pub proof fn lemma_ray_stops_at_first_blocker(b: Board, c: PieceColor, f: int, r: int, i: int)
    requires
        0 <= i < 12,
        coord_ok(f, r),
    ensures
        ray_stops_properly(b, c, f, r, i),
    decreases slide_room(i, f, r),
{
    let line = slide_line(i);
    let ray = ray_seq(b, c, f, r, i);
    let p = line_step(f, r, line);
    lemma_line_step_n_shift(f, r, line, 0);
    assert(line_step_n(f, r, line, 1) == p);
    if !coord_ok(p.0, p.1) {
        assert(ray.len() == 0);
    } else if piece_at(b, p.0, p.1) is None {
        lemma_slide_progress(i, f, r);
        lemma_ray_stops_at_first_blocker(b, c, p.0, p.1, i);
        let tail = ray_seq(b, c, p.0, p.1, i);
        let pc = Coords { file_idx: p.0 as usize, rank_idx: p.1 as usize };
        assert(ray == seq![pc] + tail);
        assert forall|k: int| 0 <= k < ray.len() implies coord_ok(
            (#[trigger] ray[k]).file_idx as int,
            ray[k].rank_idx as int,
        ) by {
            if k == 0 {
                assert(ray[0] == pc);
            } else {
                assert(ray[k] == tail[k - 1]);
            }
        }
        assert forall|k: int| 0 <= k < ray.len() implies ({
            let q = line_step_n(f, r, line, (k + 1) as nat);
            q.0 == (#[trigger] ray[k]).file_idx as int && q.1 == ray[k].rank_idx as int
        }) by {
            if k == 0 {
                assert(ray[0] == pc);
            } else {
                assert(ray[k] == tail[k - 1]);
                lemma_line_step_n_shift(f, r, line, k as nat);
            }
        }
        assert forall|k: int| 0 <= k < ray.len() - 1 implies piece_at(
            b,
            (#[trigger] ray[k]).file_idx as int,
            ray[k].rank_idx as int,
        ) is None by {
            if k > 0 {
                assert(ray[k] == tail[k - 1]);
            } else {
                assert(ray[0] == pc);
            }
        }
        if tail.len() > 0 {
            assert(ray.last() == tail.last());
        } else {
            assert(ray.last() == pc);
        }
        if ray.len() == 0 || piece_at(b, ray.last().file_idx as int, ray.last().rank_idx as int)
            is None {
            lemma_line_step_n_shift(f, r, line, ray.len() as nat);
        }
    } else {
        if cell_at(b, p.0, p.1).spec_is_attackable_by(c) {
            let pc = Coords { file_idx: p.0 as usize, rank_idx: p.1 as usize };
            assert(ray == seq![pc]);
            assert(ray.last() == pc);
            assert(ray[0] == pc);
        } else {
            assert(ray.len() == 0);
        }
    }
}

/// A leaping piece reaches at most one destination per probe, so king
/// and knight have at most the twelve destinations of their fixed
/// direction tables before board-edge truncation.
pub proof fn lemma_leap_dests_bounded(b: Board, c: PieceColor, f: int, r: int, i: int)
    requires
        0 <= i <= 12,
    ensures
        king_dests_from(b, c, f, r, i).len() <= 12 - i,
        knight_dests_from(b, c, f, r, i).len() <= 12 - i,
    decreases 12 - i,
{
    if i < 12 {
        lemma_leap_dests_bounded(b, c, f, r, i + 1);
    }
}

} // verus!
