//! The session table and the shared game store.
//!
//! A store holds the one game and the bindings from opaque session
//! identifiers to seats.  The first identifier ever seen takes the
//! White seat, the second the remaining seat; later ones become
//! spectators.  Callers serialize access: one store mutation at a time.

use vstd::prelude::*;

use crate::geometry::{coord_ok, file_length, piece_at};
use crate::models::{Coords, GameSession, GlobalGame, Move, Moves, PieceColor, PlayerGame};
use crate::moves::{
    board_piece, get_available_moves, move_ok, moves_match, player_cells, prev_mover,
};
use crate::perspective::{
    adjust_last_move, adjust_move, get_player_board, lemma_rotate_involution, src_coord,
};

verus! {

/// One row of the session table: an opaque identifier and its binding.
pub struct SessionEntry {
    pub id: String,
    pub session: GameSession,
}

/// The process-wide store: the one game and the session table.  It is
/// passed explicitly to handlers; callers guard it with their own
/// mutual exclusion so no two mutations interleave.
pub struct GameStore {
    pub game: GlobalGame,
    pub table: Vec<SessionEntry>,
}

/// Index of the first table row with the given identifier, searching
/// from row `i` on.
pub open spec fn session_index_from(table: Seq<SessionEntry>, uid: Seq<char>, i: int) -> Option<
    int,
>
    decreases table.len() - i,
{
    if i < 0 || i >= table.len() {
        None
    } else if table[i].id@ == uid {
        Some(i)
    } else {
        session_index_from(table, uid, i + 1)
    }
}

/// Index of the first table row with the given identifier.
pub open spec fn session_index(table: Seq<SessionEntry>, uid: Seq<char>) -> Option<int> {
    session_index_from(table, uid, 0)
}

/// The binding of the given identifier, if the table has one.
pub open spec fn find_session(table: Seq<SessionEntry>, uid: Seq<char>) -> Option<GameSession> {
    match session_index(table, uid) {
        Some(i) => Some(table[i].session),
        None => None,
    }
}

/// A failed search means no row from `i` on carries the identifier.
proof fn lemma_session_index_none(table: Seq<SessionEntry>, uid: Seq<char>, i: int)
    requires
        0 <= i,
        session_index_from(table, uid, i) is None,
    ensures
        forall|j: int| i <= j < table.len() ==> (#[trigger] table[j].id@) != uid,
    decreases table.len() - i,
{
    if 0 <= i < table.len() {
        lemma_session_index_none(table, uid, i + 1);
    }
}

/// Appending a row for an identifier the table lacks makes that row the
/// first match.
proof fn lemma_session_index_push(table: Seq<SessionEntry>, uid: Seq<char>, e: SessionEntry, i: int)
    requires
        session_index_from(table, uid, i) is None,
        e.id@ == uid,
        0 <= i <= table.len(),
    ensures
        session_index_from(table.push(e), uid, i) == Some(table.len() as int),
    decreases table.len() - i,
{
    if i < table.len() {
        lemma_session_index_push(table, uid, e, i + 1);
    }
}

impl GameStore {
    /// Well-formed store: a well-formed game and no identifier bound
    /// twice.
    pub open spec fn wf(self) -> bool {
        &&& self.game.wf()
        &&& forall|i: int, j: int|
            0 <= i < j < self.table@.len() ==> (#[trigger] self.table@[i].id@) != (
            #[trigger] self.table@[j].id@)
    }
}

/// Finds the table row bound to the identifier, if any.
fn find_session_idx(table: &Vec<SessionEntry>, uid: &String) -> (idx: Option<usize>)
    ensures
        match idx {
            Some(i) => i < table@.len() && session_index(table@, uid@) == Some(i as int),
            None => session_index(table@, uid@) is None,
        },
{
    let mut i: usize = 0;
    while i < table.len()
        invariant
            i <= table@.len(),
            session_index(table@, uid@) == session_index_from(table@, uid@, i as int),
        decreases table@.len() - i,
    {
        if table[i].id == *uid {
            return Some(i);
        }
        i = i + 1;
    }
    None
}

/// The seat the next new identifier gets: the White seat while no seat
/// is taken, the vacant seat while exactly one is, none otherwise.
pub open spec fn seat_for(seats: Seq<Option<String>>) -> Option<PieceColor> {
    if seats[0] is None {
        Some(PieceColor::White)
    } else if seats[1] is None {
        Some(PieceColor::Black)
    } else {
        None
    }
}

/// Assigns the next vacant seat to the identifier, permanently; with
/// both seats taken the caller stays a spectator.
pub fn pick_player(sessions: &mut Vec<Option<String>>, session_id: &str) -> (seat: Option<
    PieceColor,
>)
    requires
        old(sessions)@.len() == 2,
    ensures
        final(sessions)@.len() == 2,
        seat == seat_for(old(sessions)@),
        match seat {
            Some(PieceColor::White) => final(sessions)@[1] == old(sessions)@[1] && (final(sessions)@[0] matches Some(s) && s@ == session_id@),
            Some(PieceColor::Black) => final(sessions)@[0] == old(sessions)@[0] && (final(sessions)@[1] matches Some(s) && s@ == session_id@),
            None => final(sessions)@ == old(sessions)@,
        },
{
    let vacant0 = sessions[0].is_none();
    if vacant0 {
        sessions.set(0, Some(session_id.to_owned()));
        return Some(PieceColor::White);
    }
    let vacant1 = sessions[1].is_none();
    if vacant1 {
        sessions.set(1, Some(session_id.to_owned()));
        return Some(PieceColor::Black);
    }
    None
}

/// What a correctly assembled per-player view holds: the seat, the
/// board and last move carried into the viewer's frame, and exactly
/// the viewer's available moves (none for a spectator).
pub open spec fn player_game_ok(g: GlobalGame, player: Option<PieceColor>, pg: PlayerGame) -> bool {
    let color = match player {
        Some(c) => c,
        None => PieceColor::White,
    };
    &&& pg.player == player
    &&& crate::geometry::board_shape_ok(pg.board)
    &&& forall|f: int, r: int|
        coord_ok(f, r) ==> {
            let s = src_coord(color, f, r);
            (#[trigger] crate::geometry::cell_at(pg.board, f, r)).piece == piece_at(
                g.board,
                s.file_idx as int,
                s.rank_idx as int,
            ) && crate::geometry::cell_at(pg.board, f, r).color == crate::geometry::cell_at(
                g.board,
                s.file_idx as int,
                s.rank_idx as int,
            ).color
        }
    &&& pg.last_move == (match g.last_move() {
        None => None::<Move>,
        Some(m) => Some(adjust_move(m, color)),
    })
    &&& match player {
        None => pg.available_moves@.len() == 0,
        Some(p) => {
            &&& (p == prev_mover(pg.board, pg.last_move) ==> pg.available_moves@.len() == 0)
            &&& (p != prev_mover(pg.board, pg.last_move) ==> moves_match(
                pg.board,
                pg.available_moves@,
                player_cells(pg.board, p),
            ))
        },
    }
}

/// Assembles what the given seat is shown: the board and last move in
/// the seat's own frame and the seat's available moves.  A spectator
/// sees White's frame and no moves.
pub fn get_player_game(game: &GlobalGame, player: Option<PieceColor>) -> (pg: PlayerGame)
    requires
        game.wf(),
    ensures
        player_game_ok(*game, player, pg),
{
    let color = match player {
        Some(c) => c,
        None => PieceColor::White,
    };
    let board = get_player_board(&game.board, color);
    let last_move: Option<Move> = if game.history.len() > 0 {
        let m = game.history[game.history.len() - 1];
        proof {
            assert(m == game.history@.last());
        }
        Some(adjust_last_move(m, color))
    } else {
        None
    };
    let available_moves: Vec<Moves> = match player {
        None => Vec::new(),
        Some(p) => {
            proof {
                if game.history@.len() > 0 {
                    let m = game.history@.last();
                    if color == PieceColor::Black {
                        lemma_rotate_involution(m.to);
                    }
                }
            }
            get_available_moves(&board, p, last_move)
        },
    };
    PlayerGame { player, board, available_moves, last_move }
}

/// Looks the identifier's session up, creating it (and assigning a
/// seat, if one is vacant) on first contact, and returns what that
/// session is shown.
pub fn get_game(store: &mut GameStore, uid: &str) -> (pg: PlayerGame)
    requires
        old(store).wf(),
    ensures
        final(store).wf(),
        final(store).game.board == old(store).game.board,
        final(store).game.history == old(store).game.history,
        session_index(old(store).table@, uid@) is Some ==> final(store).game == old(store).game
            && final(store).table@ == old(store).table@,
        session_index(old(store).table@, uid@) is None ==> {
            &&& final(store).table@.len() == old(store).table@.len() + 1
            &&& forall|k: int|
                0 <= k < old(store).table@.len() ==> (#[trigger] final(store).table@[k])
                    == old(store).table@[k]
            &&& final(store).table@.last().id@ == uid@
            &&& final(store).table@.last().session.player == seat_for(old(store).game.sessions@)
        },
        match find_session(final(store).table@, uid@) {
            Some(sess) => player_game_ok(final(store).game, sess.player, pg),
            None => false,
        },
{
    let uid_owned: String = uid.to_owned();
    let idx = find_session_idx(&store.table, &uid_owned);
    let player: Option<PieceColor> = match idx {
        Some(i) => store.table[i].session.player,
        None => {
            let seat = pick_player(&mut store.game.sessions, uid);
            let ghost table0 = store.table@;
            let entry = SessionEntry { id: uid_owned, session: GameSession { player: seat } };
            store.table.push(entry);
            proof {
                lemma_session_index_push(table0, uid@, store.table@.last(), 0);
                lemma_session_index_none(table0, uid@, 0);
            }
            seat
        },
    };
    get_player_game(&store.game, player)
}

/// The seat color bound to the identifier, if it has a session with a
/// seat.
pub open spec fn session_color(store: GameStore, uid: Seq<char>) -> Option<PieceColor> {
    match find_session(store.table@, uid) {
        Some(sess) => sess.player,
        None => None,
    }
}

/// Whether the store accepts this move from this identifier: the
/// identifier must hold a seat, the move must address real cells and
/// distinct ones, it must be that seat's turn, and the source cell
/// must hold a piece of the seat's color.  Destination legality is not
/// cross-checked against the move engine; move application trusts the
/// submitted pair, a documented limitation.
pub open spec fn move_accepted(store: GameStore, uid: Seq<char>, m: Move) -> bool {
    match session_color(store, uid) {
        None => false,
        Some(color) => {
            let cm = adjust_move(m, color);
            &&& move_ok(m)
            &&& cm.from != cm.to
            &&& store.game.turn() == color
            &&& (match piece_at(store.game.board, cm.from.file_idx as int, cm.from.rank_idx as int) {
                Some(p) => p.color == color,
                None => false,
            })
        },
    }
}

/// Whose turn it is now.
pub fn current_turn(game: &GlobalGame) -> (c: PieceColor)
    requires
        game.wf(),
    ensures
        c == game.turn(),
{
    if game.history.len() == 0 {
        PieceColor::White
    } else {
        let m = game.history[game.history.len() - 1];
        proof {
            assert(m == game.history@.last());
        }
        match board_piece(&game.board, m.to) {
            Some(piece) => piece.color.opposite(),
            None => PieceColor::White,
        }
    }
}

/// Whether both endpoints of a move address real cells.
pub fn move_in_bounds(m: Move) -> (b: bool)
    ensures
        b == move_ok(m),
{
    coords_in_bounds(m.from) && coords_in_bounds(m.to)
}

/// Whether a coordinate addresses a real cell.
pub fn coords_in_bounds(c: Coords) -> (b: bool)
    ensures
        b == coord_ok(c.file_idx as int, c.rank_idx as int),
{
    if c.file_idx < 11 {
        c.rank_idx < file_length(c.file_idx)
    } else {
        false
    }
}

/// Gates and applies a move submitted by the identifier's session, in
/// that session's own frame.  Rejections leave the store untouched;
/// acceptance commits the canonical move and reports that views must
/// be re-sent.
pub fn handle_move(store: &mut GameStore, uid: &str, game_move: Move) -> (applied: bool)
    requires
        old(store).wf(),
    ensures
        final(store).wf(),
        applied == move_accepted(*old(store), uid@, game_move),
        final(store).table@ == old(store).table@,
        final(store).game.sessions == old(store).game.sessions,
        !applied ==> final(store).game == old(store).game,
        applied ==> (match session_color(*old(store), uid@) {
            Some(color) => {
                let cm = adjust_move(game_move, color);
                &&& final(store).game.turn() == color.spec_opposite()
                &&& final(store).game.history@ == old(store).game.history@.push(cm)
                &&& piece_at(final(store).game.board, cm.to.file_idx as int, cm.to.rank_idx as int)
                    == piece_at(
                    old(store).game.board,
                    cm.from.file_idx as int,
                    cm.from.rank_idx as int,
                )
                &&& piece_at(
                    final(store).game.board,
                    cm.from.file_idx as int,
                    cm.from.rank_idx as int,
                ) is None
                &&& forall|f: int, r: int|
                    coord_ok(f, r) && !(f == cm.from.file_idx as int && r
                        == cm.from.rank_idx as int) && !(f == cm.to.file_idx as int && r
                        == cm.to.rank_idx as int) ==> #[trigger] crate::geometry::cell_at(
                        final(store).game.board,
                        f,
                        r,
                    ) == crate::geometry::cell_at(old(store).game.board, f, r)
            },
            None => false,
        }),
{
    let uid_owned: String = uid.to_owned();
    let idx = match find_session_idx(&store.table, &uid_owned) {
        Some(i) => i,
        None => {
            return false;
        },
    };
    let player = match store.table[idx].session.player {
        Some(c) => c,
        None => {
            return false;
        },
    };
    if !move_in_bounds(game_move) {
        return false;
    }
    let cm = adjust_last_move(game_move, player);
    if cm.from == cm.to {
        return false;
    }
    let turn = current_turn(&store.game);
    if turn != player {
        return false;
    }
    match board_piece(&store.game.board, cm.from) {
        Some(p) => {
            if p.color != player {
                return false;
            }
        },
        None => {
            return false;
        },
    }
    store.game.try_apply_move(cm)
}

} // verus!
