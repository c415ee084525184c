//! Data model: pieces, cells, coordinates, moves and the shared game state.

use vstd::prelude::*;

verus! {

#[derive(Clone, Copy, PartialEq, Eq, Structural, Debug)]
pub enum PieceType {
    Pawn,
    Knight,
    Bishop,
    Rook,
    Queen,
    King,
}

#[derive(Clone, Copy, PartialEq, Eq, Structural, Debug)]
pub enum PieceColor {
    Black,
    White,
}

impl PieceColor {
    /// The other player's color.
    pub open spec fn spec_opposite(self) -> PieceColor {
        match self {
            PieceColor::Black => PieceColor::White,
            PieceColor::White => PieceColor::Black,
        }
    }

    #[verifier::when_used_as_spec(spec_opposite)]
    pub fn opposite(self) -> (c: PieceColor)
        ensures
            c == self.spec_opposite(),
    {
        match self {
            PieceColor::Black => PieceColor::White,
            PieceColor::White => PieceColor::Black,
        }
    }
}

/// Display color of a cell; the hexagonal board uses three.
#[derive(Clone, Copy, PartialEq, Eq, Structural, Debug)]
pub enum CellColor {
    Dark,
    Light,
    Mid,
}

/// Position of a cell: index of its file (0..=10) and index of the cell
/// within the file, counted from White's edge in canonical orientation.
#[derive(Clone, Copy, PartialEq, Eq, Structural, Debug)]
pub struct Coords {
    pub file_idx: usize,
    pub rank_idx: usize,
}

#[derive(Clone, Copy, PartialEq, Eq, Structural, Debug)]
pub struct Piece {
    pub color: PieceColor,
    pub ptype: PieceType,
}

#[derive(Clone, Copy, Debug)]
pub struct Cell {
    pub coords: Coords,
    pub color: CellColor,
    pub piece: Option<Piece>,
}

impl Cell {
    /// Whether no piece stands on this cell.
    pub open spec fn spec_is_empty(self) -> bool {
        self.piece is None
    }

    #[verifier::when_used_as_spec(spec_is_empty)]
    pub fn is_empty(self) -> (r: bool)
        ensures
            r == self.spec_is_empty(),
    {
        self.piece.is_none()
    }

    /// Whether the cell holds a piece of the color opposing `player`.
    pub open spec fn spec_is_attackable_by(self, player: PieceColor) -> bool {
        match self.piece {
            Some(p) => p.color != player,
            None => false,
        }
    }

    #[verifier::when_used_as_spec(spec_is_attackable_by)]
    pub fn is_attackable_by(self, player: PieceColor) -> (r: bool)
        ensures
            r == self.spec_is_attackable_by(player),
    {
        match self.piece {
            Some(p) => p.color != player,
            None => false,
        }
    }
}

/// The canonical board: 11 files, each an ordered run of cells.
pub type Board = Vec<Vec<Cell>>;

/// A move, stored in canonical (White-oriented) coordinates in history.
#[derive(Clone, Copy, PartialEq, Eq, Structural, Debug)]
pub struct Move {
    pub from: Coords,
    pub to: Coords,
}

/// All destinations currently reachable from one source cell.
#[derive(Clone, Debug)]
pub struct Moves {
    pub from: Coords,
    pub to: Vec<Coords>,
}

/// What one connected client is shown: its seat, the board and the legal
/// moves in its own perspective, and the last move in the same frame.
#[derive(Clone, Debug)]
pub struct PlayerGame {
    pub player: Option<PieceColor>,
    pub board: Board,
    pub available_moves: Vec<Moves>,
    pub last_move: Option<Move>,
}

/// The one shared game: two seat assignments (index 0 = White,
/// index 1 = Black), the canonical board, and the append-only history.
#[derive(Debug)]
pub struct GlobalGame {
    pub sessions: Vec<Option<String>>,
    pub board: Board,
    pub history: Vec<Move>,
}

/// One client's binding: the seat color it was assigned, if any.
/// A session without a color is a spectator.
#[derive(Clone, Copy, Debug)]
pub struct GameSession {
    pub player: Option<PieceColor>,
}

} // verus!
