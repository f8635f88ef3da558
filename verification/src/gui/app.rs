use vstd::prelude::*;

use crate::board::position::{color_of_index, uci_text, Color, Move, Piece, PieceType, Position};
use crate::engine::book::{get_book_move, xorshift, xorshift_spec};
use crate::engine::eval::{insufficient_material, is_insufficient_material};
use crate::engine::search::make_if_legal;
use crate::moves::generator::{
    attacked, has_legal_move, legal_move, legal_position, lemma_legal_position_fits, pseudo_legal, MoveGen,
};
use crate::moves::make_move::{made, make_move};
use crate::text::{decimal, push_decimal, push_text};
use crate::uci::is_startpos;

verus! {

#[derive(Clone, Copy, PartialEq, Eq, Structural, Debug)]
pub enum GameMode {
    HumanVsEngine,
    EngineVsHuman,
    HumanVsHuman,
    EngineVsEngine,
}

/// Game state behind the board window: the live game, its history for review,
/// the selection and move hints, and what the status line says.
pub struct StockSharkApp {
    /// The live game position, always the latest state.
    pub pos: Position,
    /// Snapshots of the game: [0] = start, [n] = after n moves.
    pub position_snapshots: Vec<Position>,
    /// Which snapshot is displayed (behind the live one while reviewing).
    pub view_index: usize,
    pub selected_sq: Option<u8>,
    /// Legal moves of the selected piece, shown as hints.
    pub legal_moves: Vec<Move>,
    /// Moves played, with their UCI text.
    pub move_history: Vec<(Move, String)>,
    pub game_mode: GameMode,
    pub engine_depth: u32,
    pub status: String,
    pub engine_thinking: bool,
    pub human_color: Color,
    pub eval_score: Option<i32>,
    pub flip_board: bool,
    /// Per-game seed for opening book variety.
    pub game_seed: u64,
    /// Path shown in the book loader.
    pub book_path_input: String,
    pub book_status: String,
}

/// Moves can be played on the position: it is legal and its counters have room
/// for one more move.
pub open spec fn live(p: Position) -> bool {
    &&& legal_position(p)
    &&& p.halfmove_clock < u32::MAX
    &&& p.fullmove < u32::MAX
}

pub open spec fn in_check(p: Position) -> bool {
    attacked(p, p.king_sq@[p.side.idx()] as int, p.side.opposite())
}

pub open spec fn side_name(c: Color) -> Seq<char> {
    if c == Color::White {
        "White"@
    } else {
        "Black"@
    }
}

/// Why the game is over, if it is: insufficient material, checkmate or
/// stalemate, or the fifty-move rule.
pub open spec fn game_over_text(p: Position) -> Option<Seq<char>> {
    if insufficient_material(p.board@) {
        Some("Draw by insufficient material."@)
    } else if !has_legal_move(p) {
        if in_check(p) {
            Some("Checkmate! "@ + side_name(p.side.opposite()) + " wins."@)
        } else {
            Some("Stalemate! Draw."@)
        }
    } else if p.halfmove_clock >= 100 {
        Some("Draw by 50-move rule."@)
    } else {
        None
    }
}

/// Whose turn it is, and whether they are in check.
pub open spec fn turn_text(p: Position) -> Seq<char> {
    if in_check(p) {
        side_name(p.side) + " is in check!"@
    } else {
        side_name(p.side) + "'s turn"@
    }
}

/// The status line for a position.
pub open spec fn status_text(p: Position) -> Seq<char> {
    match game_over_text(p) {
        Some(t) => t,
        None => turn_text(p),
    }
}

/// The engine plays the side to move in this mode.
pub open spec fn engine_plays(mode: GameMode, side: Color) -> bool {
    match mode {
        GameMode::HumanVsEngine => side == Color::Black,
        GameMode::EngineVsHuman => side == Color::White,
        GameMode::EngineVsEngine => true,
        GameMode::HumanVsHuman => false,
    }
}

/// A human plays the side to move in this mode.
pub open spec fn human_plays(mode: GameMode, side: Color) -> bool {
    match mode {
        GameMode::HumanVsEngine => side == Color::White,
        GameMode::EngineVsHuman => side == Color::Black,
        GameMode::HumanVsHuman => true,
        GameMode::EngineVsEngine => false,
    }
}

fn side_text(c: Color) -> (s: String)
    ensures
        s@ == side_name(c),
{
    let mut s = String::new();
    match c {
        Color::White => push_text(&mut s, "White"),
        Color::Black => push_text(&mut s, "Black"),
    }
    s
}

fn text_of(t: &str) -> (s: String)
    ensures
        s@ == t@,
{
    let mut s = String::new();
    push_text(&mut s, t);
    s
}

/// Whether the side to move has a legal move.
fn any_legal_move(pos: &Position) -> (r: bool)
    requires
        live(*pos),
    ensures
        r == has_legal_move(*pos),
{
    let moves = MoveGen::generate(pos);
    let mut i: usize = 0;
    while i < moves.len()
        invariant
            i <= moves@.len(),
            live(*pos),
            forall|x: int| 0 <= x < moves@.len() ==> pseudo_legal(*pos, #[trigger] moves@[x]),
            forall|m: Move| pseudo_legal(*pos, m) ==> #[trigger] moves@.contains(m),
            forall|k: int| 0 <= k < i ==> !legal_move(*pos, #[trigger] moves@[k]),
        decreases moves@.len() - i,
    {
        let mut p = *pos;
        if make_if_legal(&mut p, moves[i]).is_some() {
            assert(legal_move(*pos, moves@[i as int]));
            return true;
        }
        i += 1;
    }
    proof {
        if has_legal_move(*pos) {
            let m = choose|m: Move| legal_move(*pos, m);
            assert(moves@.contains(m));
            let k = choose|k: int| 0 <= k < moves@.len() && moves@[k] == m;
            assert(!legal_move(*pos, moves@[k]));
        }
    }
    false
}

impl StockSharkApp {
    /// The state is coherent: at least one snapshot, the live position last,
    /// the view on a snapshot, one recorded move per step, a playable live
    /// position, and only legal moves as hints.
    pub open spec fn wf(&self) -> bool {
        &&& self.position_snapshots@.len() > 0
        &&& self.view_index < self.position_snapshots@.len()
        &&& self.pos == self.position_snapshots@.last()
        &&& self.move_history@.len() + 1 == self.position_snapshots@.len()
        &&& live(self.pos)
        &&& forall|i: int| 0 <= i < self.legal_moves@.len() ==> legal_move(self.pos, #[trigger] self.legal_moves@[i])
    }

    /// A new game from the starting position, Human vs Engine, depth 6.
    pub fn new(seed: u64, book_path_input: String, book_status: String) -> (app: Self)
        ensures
            app.wf(),
            is_startpos(app.pos),
            app.view_index == 0,
            app.status@ == "Your move (White)"@,
            app.game_mode == GameMode::HumanVsEngine,
            app.engine_depth == 6,
            app.game_seed == seed,
            app.move_history@.len() == 0,
    {
        let pos = Position::startpos();
        let mut snapshots: Vec<Position> = Vec::new();
        snapshots.push(pos);
        StockSharkApp {
            pos,
            position_snapshots: snapshots,
            view_index: 0,
            selected_sq: None,
            legal_moves: Vec::new(),
            move_history: Vec::new(),
            game_mode: GameMode::HumanVsEngine,
            engine_depth: 6,
            status: text_of("Your move (White)"),
            engine_thinking: false,
            human_color: Color::White,
            eval_score: None,
            flip_board: false,
            game_seed: seed,
            book_path_input,
            book_status,
        }
    }
}


impl StockSharkApp {
    /// Everything but the view, the selection and the hints is as in `other`.
    /// The human's colour and the book settings are as in `other`.
    pub open spec fn keeps_settings(&self, other: &Self) -> bool {
        &&& self.human_color == other.human_color
        &&& self.book_path_input@ == other.book_path_input@
        &&& self.book_status@ == other.book_status@
    }

    pub open spec fn same_game(&self, other: &Self) -> bool {
        &&& self.pos == other.pos
        &&& self.position_snapshots@ == other.position_snapshots@
        &&& self.move_history@ == other.move_history@
        &&& self.game_mode == other.game_mode
        &&& self.engine_depth == other.engine_depth
        &&& self.status@ == other.status@
        &&& self.engine_thinking == other.engine_thinking
        &&& self.eval_score == other.eval_score
        &&& self.flip_board == other.flip_board
        &&& self.game_seed == other.game_seed
    }

    /// Board clicks count: the live position is shown, a human plays the side
    /// to move, and the engine is not thinking.
    pub open spec fn accepts_click(&self) -> bool {
        &&& !(self.view_index < self.position_snapshots@.len() - 1)
        &&& human_plays(self.game_mode, self.pos.side)
        &&& !self.engine_thinking
    }

    // ── Navigation ───────────────────────────────────────────────────────────

    /// The view is behind the live position.
    pub fn is_reviewing(&self) -> (r: bool)
        requires
            self.wf(),
        ensures
            r == (self.view_index < self.position_snapshots@.len() - 1),
    {
        self.view_index < self.position_snapshots.len() - 1
    }

    pub fn viewed_pos(&self) -> (p: &Position)
        requires
            self.wf(),
        ensures
            *p == self.position_snapshots@[self.view_index as int],
    {
        &self.position_snapshots[self.view_index]
    }

    /// Shows snapshot `idx` (the last one when past the end) and drops the
    /// selection.
    pub fn navigate_to(&mut self, idx: usize)
        requires
            old(self).wf(),
        ensures
            final(self).keeps_settings(old(self)),
            final(self).wf(),
            final(self).same_game(old(self)),
            final(self).view_index == (if idx < old(self).position_snapshots@.len() - 1 {
                idx as int
            } else {
                old(self).position_snapshots@.len() - 1
            }),
            final(self).selected_sq is None,
            final(self).legal_moves@.len() == 0,
    {
        let max = self.position_snapshots.len() - 1;
        self.view_index = if idx < max {
            idx
        } else {
            max
        };
        self.selected_sq = None;
        self.legal_moves.clear();
    }

    pub fn nav_first(&mut self)
        requires
            old(self).wf(),
        ensures
            final(self).keeps_settings(old(self)),
            final(self).wf(),
            final(self).same_game(old(self)),
            final(self).view_index == 0,
    {
        self.navigate_to(0);
    }

    pub fn nav_prev(&mut self)
        requires
            old(self).wf(),
        ensures
            final(self).keeps_settings(old(self)),
            final(self).wf(),
            final(self).same_game(old(self)),
            final(self).view_index == (if old(self).view_index > 0 {
                old(self).view_index - 1
            } else {
                0
            }),
    {
        if self.view_index > 0 {
            self.navigate_to(self.view_index - 1);
        }
    }

    pub fn nav_next(&mut self)
        requires
            old(self).wf(),
        ensures
            final(self).keeps_settings(old(self)),
            final(self).wf(),
            final(self).same_game(old(self)),
            final(self).view_index == (if old(self).view_index + 1 < old(self).position_snapshots@.len() {
                old(self).view_index + 1
            } else {
                old(self).view_index as int
            }),
    {
        let n = self.position_snapshots.len();
        assert(self.view_index < n);
        self.navigate_to(self.view_index + 1);
    }

    pub fn nav_last(&mut self)
        requires
            old(self).wf(),
        ensures
            final(self).keeps_settings(old(self)),
            final(self).wf(),
            final(self).same_game(old(self)),
            final(self).view_index == old(self).position_snapshots@.len() - 1,
    {
        let last = self.position_snapshots.len() - 1;
        self.navigate_to(last);
    }

    // ── Board coordinates ────────────────────────────────────────────────────

    /// Square under display column `col` (0 = left) and display rank `row`
    /// (0 = bottom), taking a flipped board into account.
    pub fn board_square(&self, col: u8, row: u8) -> (sq: u8)
        requires
            col < 8,
            row < 8,
        ensures
            self.flip_board ==> sq == (7 - row) * 8 + (7 - col),
            !self.flip_board ==> sq == row * 8 + col,
            sq < 64,
    {
        let (file, rank) = if self.flip_board {
            (7 - col, 7 - row)
        } else {
            (col, row)
        };
        rank * 8 + file
    }

    /// Display cell (column from the left, row from the top) of square `sq`.
    pub fn display_cell(&self, sq: u8) -> (cell: (u8, u8))
        requires
            sq < 64,
        ensures
            self.flip_board ==> cell.0 == 7 - sq % 8 && cell.1 == sq / 8,
            !self.flip_board ==> cell.0 == sq % 8 && cell.1 == 7 - sq / 8,
    {
        let file = sq % 8;
        let rank = sq / 8;
        if self.flip_board {
            (7 - file, rank)
        } else {
            (file, 7 - rank)
        }
    }

    /// Squares of the move that led to the viewed position.
    pub fn last_move_squares(&self) -> (r: Option<(u8, u8)>)
        requires
            self.wf(),
        ensures
            r == (if self.view_index == 0 {
                None
            } else {
                let m = self.move_history@[self.view_index - 1].0;
                Some((m.from_spec() as u8, m.to_spec() as u8))
            }),
    {
        if self.view_index == 0 {
            return None;
        }
        let mv = self.move_history[self.view_index - 1].0;
        Some((mv.from_sq(), mv.to_sq()))
    }

    // ── Game state ───────────────────────────────────────────────────────────

    /// Whether a pseudo-legal move is legal in the live position.
    fn is_legal(&self, mv: Move) -> (r: bool)
        requires
            self.wf(),
            pseudo_legal(self.pos, mv),
        ensures
            r == legal_move(self.pos, mv),
    {
        let mut p = self.pos;
        make_if_legal(&mut p, mv).is_some()
    }

    /// Whether the game has ended; if so, the status line says why.
    pub fn is_game_over(&mut self) -> (r: bool)
        requires
            old(self).wf(),
        ensures
            final(self).keeps_settings(old(self)),
            final(self).wf(),
            r == (game_over_text(old(self).pos) is Some),
            r ==> final(self).status@ == game_over_text(old(self).pos)->0,
            !r ==> final(self).status@ == old(self).status@,
            final(self).pos == old(self).pos,
            final(self).position_snapshots@ == old(self).position_snapshots@,
            final(self).move_history@ == old(self).move_history@,
            final(self).view_index == old(self).view_index,
            final(self).selected_sq == old(self).selected_sq,
            final(self).legal_moves@ == old(self).legal_moves@,
            final(self).game_mode == old(self).game_mode,
            final(self).engine_thinking == old(self).engine_thinking,
            final(self).engine_depth == old(self).engine_depth,
            final(self).eval_score == old(self).eval_score,
            final(self).game_seed == old(self).game_seed,
            final(self).flip_board == old(self).flip_board,
    {
        if is_insufficient_material(&self.pos) {
            self.status = text_of("Draw by insufficient material.");
            return true;
        }
        if !any_legal_move(&self.pos) {
            if MoveGen::in_check(&self.pos) {
                let winner = side_text(self.pos.side.flip());
                let mut s = text_of("Checkmate! ");
                push_text(&mut s, winner.as_str());
                push_text(&mut s, " wins.");
                self.status = s;
            } else {
                self.status = text_of("Stalemate! Draw.");
            }
            true
        } else if self.pos.halfmove_clock >= 100 {
            self.status = text_of("Draw by 50-move rule.");
            true
        } else {
            false
        }
    }

    /// Sets the status line for the live position.
    pub fn update_status(&mut self)
        requires
            old(self).wf(),
        ensures
            final(self).keeps_settings(old(self)),
            final(self).wf(),
            final(self).status@ == status_text(old(self).pos),
            final(self).pos == old(self).pos,
            final(self).position_snapshots@ == old(self).position_snapshots@,
            final(self).move_history@ == old(self).move_history@,
            final(self).view_index == old(self).view_index,
            final(self).selected_sq == old(self).selected_sq,
            final(self).legal_moves@ == old(self).legal_moves@,
            final(self).game_mode == old(self).game_mode,
            final(self).engine_thinking == old(self).engine_thinking,
            final(self).engine_depth == old(self).engine_depth,
            final(self).eval_score == old(self).eval_score,
            final(self).game_seed == old(self).game_seed,
            final(self).flip_board == old(self).flip_board,
    {
        if self.is_game_over() {
            return;
        }
        let side = side_text(self.pos.side);
        let mut s = side;
        if MoveGen::in_check(&self.pos) {
            push_text(&mut s, " is in check!");
        } else {
            push_text(&mut s, "'s turn");
        }
        self.status = s;
    }

    /// It is the engine's turn and it is not already thinking.
    pub fn engine_to_move(&self) -> (r: bool)
        ensures
            r == (engine_plays(self.game_mode, self.pos.side) && !self.engine_thinking),
    {
        let engine_turn = match self.game_mode {
            GameMode::HumanVsEngine => self.pos.side == Color::Black,
            GameMode::EngineVsHuman => self.pos.side == Color::White,
            GameMode::EngineVsEngine => true,
            GameMode::HumanVsHuman => false,
        };
        engine_turn && !self.engine_thinking
    }
}


/// The move counters have room for another move after this one.
pub open spec fn room(p: Position) -> bool {
    p.halfmove_clock < u32::MAX - 1 && p.fullmove < u32::MAX - 1
}

/// UCI texts of the moves played.
pub open spec fn notations(h: Seq<(Move, String)>) -> Seq<Seq<char>> {
    h.map_values(|e: (Move, String)| e.1@)
}

/// Whether `mv` is a legal move of `pos`.
fn legal_in(pos: &Position, mv: Move) -> (r: bool)
    requires
        live(*pos),
    ensures
        r == legal_move(*pos, mv),
{
    let moves = MoveGen::generate(pos);
    let mut i: usize = 0;
    while i < moves.len()
        invariant
            i <= moves@.len(),
            live(*pos),
            forall|m: Move| pseudo_legal(*pos, m) ==> #[trigger] moves@.contains(m),
            forall|x: int| 0 <= x < moves@.len() ==> pseudo_legal(*pos, #[trigger] moves@[x]),
            forall|x: int| 0 <= x < i ==> moves@[x] != mv,
        decreases moves@.len() - i,
    {
        if moves[i] == mv {
            let mut p = *pos;
            return make_if_legal(&mut p, mv).is_some();
        }
        i += 1;
    }
    proof {
        if pseudo_legal(*pos, mv) {
            assert(moves@.contains(mv));
        }
    }
    false
}

impl StockSharkApp {
    /// Plays a legal move (when the move counters have room): records it with
    /// its UCI text, shows the new position, clears the selection and sets the
    /// status line. Returns whether the engine should now move.
    pub fn apply_move(&mut self, mv: Move) -> (engine_next: bool)
        requires
            old(self).wf(),
            legal_move(old(self).pos, mv),
        ensures
            final(self).keeps_settings(old(self)),
            final(self).wf(),
            final(self).selected_sq is None,
            final(self).legal_moves@.len() == 0,
            final(self).game_mode == old(self).game_mode,
            final(self).engine_depth == old(self).engine_depth,
            final(self).engine_thinking == old(self).engine_thinking,
            final(self).eval_score == old(self).eval_score,
            final(self).game_seed == old(self).game_seed,
            final(self).flip_board == old(self).flip_board,
            room(old(self).pos) ==> {
                &&& made(old(self).pos, mv, final(self).pos)
                &&& final(self).position_snapshots@ == old(self).position_snapshots@.push(final(self).pos)
                &&& final(self).view_index == final(self).position_snapshots@.len() - 1
                &&& final(self).move_history@.len() == old(self).move_history@.len() + 1
                &&& final(self).move_history@.drop_last() == old(self).move_history@
                &&& final(self).move_history@.last().0 == mv
                &&& final(self).move_history@.last().1@ == uci_text(mv)
                &&& final(self).status@ == status_text(final(self).pos)
                &&& engine_next == (game_over_text(final(self).pos) is None && engine_plays(
                    final(self).game_mode,
                    final(self).pos.side,
                ) && !final(self).engine_thinking)
            },
            !room(old(self).pos) ==> {
                &&& final(self).same_game(old(self))
                &&& final(self).view_index == old(self).view_index
                &&& !engine_next
            },
    {
        self.selected_sq = None;
        self.legal_moves.clear();
        if self.pos.halfmove_clock >= u32::MAX - 1 || self.pos.fullmove >= u32::MAX - 1 {
            return false;
        }
        let ghost p = self.pos;
        proof {
            lemma_legal_position_fits(p, mv);
        }
        let notation = mv.to_uci();
        make_move(&mut self.pos, mv);
        proof {
            assert(crate::moves::generator::king_safe_after(self.pos));
        }
        self.position_snapshots.push(self.pos);
        self.view_index = self.position_snapshots.len() - 1;
        self.move_history.push((mv, notation));
        proof {
            assert(self.move_history@.drop_last() =~= old(self).move_history@);
        }
        self.update_status();
        if !self.is_game_over() {
            self.engine_to_move()
        } else {
            false
        }
    }

    /// Index `k` is the first hinted move from `from` to `to`.
    pub open spec fn first_hint(ms: Seq<Move>, from: int, to: int, k: int) -> bool {
        &&& 0 <= k < ms.len()
        &&& ms[k].from_spec() == from
        &&& ms[k].to_spec() == to
        &&& forall|j: int| 0 <= j < k ==> !((#[trigger] ms[j]).from_spec() == from && ms[j].to_spec() == to)
    }

    /// The selected square, or -1 when none is selected.
    pub open spec fn selected_from(&self) -> int {
        match self.selected_sq {
            Some(f) => f as int,
            None => -1,
        }
    }

    /// Some hinted move goes from the selected square to `to`.
    pub open spec fn hint_to(&self, to: int) -> bool {
        exists|k: int|
            0 <= k < self.legal_moves@.len() && (#[trigger] self.legal_moves@[k]).from_spec()
                == self.selected_from() && self.legal_moves@[k].to_spec() == to
    }

    /// Square `sq` holds a piece of the side to move.
    pub open spec fn own_piece_at(&self, sq: int) -> bool {
        match self.pos.board@[sq] {
            Some(pc) => pc.color == self.pos.side,
            None => false,
        }
    }

    /// A click on square `sq`: plays the selected piece's hinted move to it,
    /// or selects a piece of the side to move (hinting its legal moves), or
    /// clears the selection. Ignored while reviewing, on the engine's turn and
    /// while the engine thinks. Returns whether the engine should now move.
    pub fn handle_click(&mut self, sq: u8) -> (engine_next: bool)
        requires
            old(self).wf(),
            sq < 64,
        ensures
            final(self).keeps_settings(old(self)),
            final(self).wf(),
            final(self).game_mode == old(self).game_mode,
            final(self).engine_thinking == old(self).engine_thinking,
            !old(self).accepts_click() ==> {
                &&& final(self).same_game(old(self))
                &&& final(self).view_index == old(self).view_index
                &&& final(self).selected_sq == old(self).selected_sq
                &&& final(self).legal_moves@ == old(self).legal_moves@
                &&& !engine_next
            },
            // A click on a hinted target plays the first hinted move there.
            forall|k: int|
                old(self).accepts_click() && #[trigger] Self::first_hint(
                    old(self).legal_moves@,
                    old(self).selected_from(),
                    sq as int,
                    k,
                ) ==> {
                    &&& room(old(self).pos) ==> {
                        &&& made(old(self).pos, old(self).legal_moves@[k], final(self).pos)
                        &&& final(self).position_snapshots@ == old(self).position_snapshots@.push(final(self).pos)
                        &&& final(self).move_history@.drop_last() == old(self).move_history@
                        &&& final(self).move_history@.last().0 == old(self).legal_moves@[k]
                        &&& final(self).view_index == final(self).position_snapshots@.len() - 1
                        &&& engine_next == (game_over_text(final(self).pos) is None && engine_plays(
                            final(self).game_mode,
                            final(self).pos.side,
                        ) && !final(self).engine_thinking)
                    }
                    &&& !room(old(self).pos) ==> final(self).same_game(old(self)) && !engine_next
                },
            // Otherwise a click on a piece of the side to move selects it and
            // hints exactly its legal moves.
            old(self).accepts_click() && !old(self).hint_to(sq as int) && old(self).own_piece_at(sq as int) ==> {
                &&& final(self).selected_sq == Some(sq)
                &&& final(self).same_game(old(self))
                &&& !engine_next
            },
            // Any other click clears the selection.
            old(self).accepts_click() && !old(self).hint_to(sq as int) && !old(self).own_piece_at(sq as int) ==> {
                &&& final(self).selected_sq is None
                &&& final(self).legal_moves@.len() == 0
                &&& final(self).same_game(old(self))
                &&& !engine_next
            },
            old(self).accepts_click() && final(self).position_snapshots@.len() != old(self).position_snapshots@.len()
                ==> exists|m: Move|
                #![trigger made(old(self).pos, m, final(self).pos)]
                old(self).legal_moves@.contains(m) && old(self).selected_sq == Some(m.from_spec() as u8)
                    && m.to_spec() == sq && made(old(self).pos, m, final(self).pos),
            old(self).accepts_click() && final(self).selected_sq == Some(sq) ==> {
                &&& final(self).same_game(old(self))
                &&& forall|m: Move|
                    #[trigger] final(self).legal_moves@.contains(m) <==> (legal_move(old(self).pos, m)
                        && m.from_spec() == sq)
            },
            old(self).accepts_click() && final(self).position_snapshots@.len() == old(self).position_snapshots@.len()
                && final(self).selected_sq != Some(sq) ==> {
                &&& final(self).same_game(old(self))
                &&& final(self).selected_sq is None
                &&& final(self).legal_moves@.len() == 0
                &&& !engine_next
            },
    {
        if self.is_reviewing() {
            return false;
        }
        let is_human_turn = match self.game_mode {
            GameMode::HumanVsEngine => self.pos.side == Color::White,
            GameMode::EngineVsHuman => self.pos.side == Color::Black,
            GameMode::HumanVsHuman => true,
            GameMode::EngineVsEngine => false,
        };
        if !is_human_turn || self.engine_thinking {
            return false;
        }
        if let Some(sel) = self.selected_sq {
            let mut i: usize = 0;
            while i < self.legal_moves.len()
                invariant
                    self.wf(),
                    i <= self.legal_moves@.len(),
                    self.selected_sq == Some(sel),
                    *self == *old(self),
                    old(self).accepts_click(),
                    sq < 64,
                    forall|j: int|
                        0 <= j < i ==> !((#[trigger] self.legal_moves@[j]).from_spec() == sel
                            && self.legal_moves@[j].to_spec() == sq),
                decreases self.legal_moves@.len() - i,
            {
                let m = self.legal_moves[i];
                proof {
                    crate::board::position::lemma_move_ranges(m);
                }
                if m.from_sq() == sel && m.to_sq() == sq {
                    assert(self.legal_moves@.contains(m));
                    assert(Self::first_hint(self.legal_moves@, sel as int, sq as int, i as int));
                    proof {
                        assert forall|k: int| #[trigger] Self::first_hint(self.legal_moves@, sel as int, sq as int, k)
                            implies k == i by {
                            if k < i {
                            } else if k > i {
                                assert(!(self.legal_moves@[i as int].from_spec() == sel && self.legal_moves@[i as int].to_spec() == sq));
                            }
                        }
                    }
                    let engine_next = self.apply_move(m);
                    return engine_next;
                }
                i += 1;
            }
        }
        let mine = match self.pos.board[sq as usize] {
            Some(piece) => piece.color == self.pos.side,
            None => false,
        };
        if mine {
            self.selected_sq = Some(sq);
            let moves = MoveGen::generate(&self.pos);
            let mut hints: Vec<Move> = Vec::new();
            let mut i: usize = 0;
            while i < moves.len()
                invariant
                    self.wf(),
                    i <= moves@.len(),
                    forall|m: Move| pseudo_legal(self.pos, m) ==> #[trigger] moves@.contains(m),
                    forall|x: int| 0 <= x < moves@.len() ==> pseudo_legal(self.pos, #[trigger] moves@[x]),
                    forall|x: int| 0 <= x < hints@.len() ==> legal_move(self.pos, #[trigger] hints@[x]),
                    forall|x: int| 0 <= x < hints@.len() ==> (#[trigger] hints@[x]).from_spec() == sq,
                    forall|x: int|
                        0 <= x < i && legal_move(self.pos, moves@[x]) && (#[trigger] moves@[x]).from_spec()
                            == sq ==> hints@.contains(moves@[x]),
                decreases moves@.len() - i,
            {
                let m = moves[i];
                proof {
                    crate::board::position::lemma_move_ranges(m);
                }
                let ghost before = hints@;
                if m.from_sq() == sq && self.is_legal(m) {
                    hints.push(m);
                }
                proof {
                    assert forall|x: int|
                        0 <= x < i + 1 && legal_move(self.pos, moves@[x]) && (#[trigger] moves@[x]).from_spec()
                            == sq implies hints@.contains(moves@[x]) by {
                        if x < i {
                            let k = choose|k: int| 0 <= k < before.len() && before[k] == moves@[x];
                            assert(hints@[k] == moves@[x]);
                        } else {
                            assert(hints@[hints@.len() - 1] == moves@[x]);
                        }
                    }
                }
                i += 1;
            }
            proof {
                assert forall|m: Move| #[trigger] hints@.contains(m) <==> (legal_move(self.pos, m)
                    && m.from_spec() == sq) by {
                    if legal_move(self.pos, m) && m.from_spec() == sq {
                        assert(moves@.contains(m));
                        let x = choose|x: int| 0 <= x < moves@.len() && moves@[x] == m;
                        assert(hints@.contains(moves@[x]));
                    }
                    if hints@.contains(m) {
                        let k = choose|k: int| 0 <= k < hints@.len() && hints@[k] == m;
                        assert(legal_move(self.pos, hints@[k]));
                    }
                }
            }
            self.legal_moves = hints;
            return false;
        }
        self.selected_sq = None;
        self.legal_moves.clear();
        false
    }

    /// Finds the legal move whose UCI text is `uci`.
    pub fn find_legal_move_by_uci(&self, uci: &str) -> (r: Option<Move>)
        requires
            self.wf(),
        ensures
            r matches Some(m) ==> legal_move(self.pos, m) && uci_text(m) == uci@,
            r matches Some(m) ==> forall|m2: Move|
                legal_move(self.pos, m2) && uci_text(m2) == uci@ ==> m2 == m,
            r is None ==> forall|m: Move| legal_move(self.pos, m) ==> uci_text(m) != uci@,
    {
        let moves = MoveGen::generate(&self.pos);
        let mut i: usize = 0;
        while i < moves.len()
            invariant
                self.wf(),
                i <= moves@.len(),
                forall|m: Move| pseudo_legal(self.pos, m) ==> #[trigger] moves@.contains(m),
                forall|x: int| 0 <= x < moves@.len() ==> pseudo_legal(self.pos, #[trigger] moves@[x]),
                forall|x: int|
                    0 <= x < i ==> !(uci_text(#[trigger] moves@[x]) == uci@ && legal_move(self.pos, moves@[x])),
            decreases moves@.len() - i,
        {
            let m = moves[i];
            let text = m.to_uci();
            if crate::uci::token_is(text.as_str(), uci) && self.is_legal(m) {
                proof {
                    assert forall|m2: Move| legal_move(self.pos, m2) && uci_text(m2) == uci@ implies m2
                        == m by {
                        crate::board::position::lemma_uci_text_determines(m, m2);
                        crate::moves::generator::lemma_pseudo_legal_unique(self.pos, m, m2);
                    }
                }
                return Some(m);
            }
            i += 1;
        }
        proof {
            assert forall|m: Move| legal_move(self.pos, m) implies uci_text(m) != uci@ by {
                assert(moves@.contains(m));
                let x = choose|x: int| 0 <= x < moves@.len() && moves@[x] == m;
                assert(!(uci_text(moves@[x]) == uci@ && legal_move(self.pos, moves@[x])));
            }
        }
        None
    }

    /// The built-in book's move for the game so far, if it is legal here.
    pub fn book_move(&self) -> (r: Option<Move>)
        requires
            self.wf(),
        ensures
            r matches Some(m) ==> legal_move(self.pos, m) && crate::engine::book::book_choice(
                notations(self.move_history@),
                self.game_seed,
            ) == Some(uci_text(m)),
            r is None ==> match crate::engine::book::book_choice(
                notations(self.move_history@),
                self.game_seed,
            ) {
                Some(t) => forall|m: Move| legal_move(self.pos, m) ==> uci_text(m) != t,
                None => true,
            },
    {
        let mut uci_history: Vec<String> = Vec::new();
        let mut i: usize = 0;
        while i < self.move_history.len()
            invariant
                i <= self.move_history@.len(),
                uci_history@.len() == i,
                forall|k: int| 0 <= k < i ==> #[trigger] uci_history@[k]@ == self.move_history@[k].1@,
            decreases self.move_history@.len() - i,
        {
            uci_history.push(self.move_history[i].1.clone());
            i += 1;
        }
        proof {
            assert(crate::engine::book::texts(uci_history@) =~= notations(self.move_history@));
        }
        match get_book_move(uci_history.as_slice(), self.game_seed) {
            Some(uci) => self.find_legal_move_by_uci(uci.as_str()),
            None => None,
        }
    }

    /// The engine takes a book move: it counts as thinking until the move is
    /// delivered.
    pub fn begin_book_move(&mut self)
        ensures
            final(self).keeps_settings(old(self)),
            final(self).engine_thinking,
            final(self).status@ == "Book..."@,
            final(self).pos == old(self).pos,
            final(self).position_snapshots@ == old(self).position_snapshots@,
            final(self).move_history@ == old(self).move_history@,
            final(self).view_index == old(self).view_index,
            final(self).legal_moves@ == old(self).legal_moves@,
            final(self).selected_sq == old(self).selected_sq,
            final(self).game_mode == old(self).game_mode,
    {
        self.engine_thinking = true;
        self.status = text_of("Book...");
    }

    /// Starts the engine thinking; returns what its search gets: the live
    /// position, the depth, and the hashes of the earlier positions of the game
    /// (the live one excluded, so the root is never taken for a repetition).
    pub fn start_engine_search(&mut self) -> (r: (Position, u32, Vec<u64>))
        requires
            old(self).wf(),
        ensures
            final(self).keeps_settings(old(self)),
            final(self).wf(),
            final(self).engine_thinking,
            final(self).status@ == "Engine thinking..."@,
            r.0 == old(self).pos,
            r.1 == old(self).engine_depth,
            r.2@.len() == old(self).position_snapshots@.len() - 1,
            forall|k: int| 0 <= k < r.2@.len() ==> #[trigger] r.2@[k] == old(self).position_snapshots@[k].hash,
            final(self).pos == old(self).pos,
            final(self).position_snapshots@ == old(self).position_snapshots@,
            final(self).move_history@ == old(self).move_history@,
            final(self).view_index == old(self).view_index,
            final(self).game_mode == old(self).game_mode,
    {
        self.engine_thinking = true;
        self.status = text_of("Engine thinking...");
        let n = self.position_snapshots.len();
        let mut history: Vec<u64> = Vec::new();
        let mut i: usize = 0;
        while i + 1 < n
            invariant
                n == self.position_snapshots@.len(),
                n > 0,
                i < n,
                history@.len() == i,
                forall|k: int| 0 <= k < i ==> #[trigger] history@[k] == self.position_snapshots@[k].hash,
            decreases n - i,
        {
            history.push(self.position_snapshots[i].hash);
            i += 1;
        }
        (self.pos, self.engine_depth, history)
    }

    /// A search result has come in: shows its score and plays its move when it
    /// is legal here (else refreshes the status line). Returns whether the
    /// engine should move again.
    pub fn accept_result(&mut self, best_move: Move, score: i32) -> (engine_next: bool)
        requires
            old(self).wf(),
        ensures
            final(self).keeps_settings(old(self)),
            final(self).wf(),
            final(self).eval_score == Some(score),
            !final(self).engine_thinking,
            best_move.0 != 0 && legal_move(old(self).pos, best_move) && room(old(self).pos) ==> {
                &&& made(old(self).pos, best_move, final(self).pos)
                &&& final(self).position_snapshots@ == old(self).position_snapshots@.push(final(self).pos)
                &&& final(self).view_index == final(self).position_snapshots@.len() - 1
                &&& final(self).move_history@.drop_last() == old(self).move_history@
                &&& final(self).move_history@.len() == old(self).move_history@.len() + 1
                &&& final(self).move_history@.last().0 == best_move
                &&& final(self).move_history@.last().1@ == uci_text(best_move)
                &&& final(self).status@ == status_text(final(self).pos)
                &&& final(self).selected_sq is None
                &&& final(self).game_mode == old(self).game_mode
                &&& engine_next == (game_over_text(final(self).pos) is None && engine_plays(
                    final(self).game_mode,
                    final(self).pos.side,
                ))
            },
            best_move.0 != 0 && legal_move(old(self).pos, best_move) && !room(old(self).pos) ==> {
                &&& final(self).pos == old(self).pos
                &&& final(self).position_snapshots@ == old(self).position_snapshots@
                &&& final(self).move_history@ == old(self).move_history@
                &&& !engine_next
            },
            !(best_move.0 != 0 && legal_move(old(self).pos, best_move)) ==> final(self).pos == old(self).pos
                && final(self).status@ == status_text(old(self).pos) && !engine_next,
    {
        self.eval_score = Some(score);
        self.engine_thinking = false;
        if !best_move.is_null() && legal_in(&self.pos, best_move) {
            self.apply_move(best_move)
        } else {
            self.update_status();
            false
        }
    }

    /// Starts a new game from the starting position with a new seed. Returns
    /// whether the engine should move first.
    pub fn new_game(&mut self, seed: u64) -> (engine_next: bool)
        requires
            old(self).wf(),
        ensures
            final(self).keeps_settings(old(self)),
            final(self).wf(),
            is_startpos(final(self).pos),
            final(self).position_snapshots@ == seq![final(self).pos],
            final(self).move_history@.len() == 0,
            final(self).view_index == 0,
            final(self).selected_sq is None,
            !final(self).engine_thinking,
            final(self).eval_score is None,
            final(self).game_seed == seed,
            final(self).game_mode == old(self).game_mode,
            final(self).status@ == status_text(final(self).pos),
            engine_next == engine_plays(final(self).game_mode, Color::White),
    {
        self.pos = Position::startpos();
        let mut snapshots: Vec<Position> = Vec::new();
        snapshots.push(self.pos);
        self.position_snapshots = snapshots;
        self.view_index = 0;
        self.selected_sq = None;
        self.legal_moves.clear();
        self.move_history.clear();
        self.engine_thinking = false;
        self.eval_score = None;
        self.game_seed = seed;
        self.update_status();
        self.engine_to_move()
    }
}

/// Unicode chess glyph of a piece.
pub open spec fn glyph_char(p: Piece) -> char {
    match (p.kind, p.color) {
        (PieceType::King, Color::White) => '\u{2654}',
        (PieceType::Queen, Color::White) => '\u{2655}',
        (PieceType::Rook, Color::White) => '\u{2656}',
        (PieceType::Bishop, Color::White) => '\u{2657}',
        (PieceType::Knight, Color::White) => '\u{2658}',
        (PieceType::Pawn, Color::White) => '\u{2659}',
        (PieceType::King, Color::Black) => '\u{265a}',
        (PieceType::Queen, Color::Black) => '\u{265b}',
        (PieceType::Rook, Color::Black) => '\u{265c}',
        (PieceType::Bishop, Color::Black) => '\u{265d}',
        (PieceType::Knight, Color::Black) => '\u{265e}',
        (PieceType::Pawn, Color::Black) => '\u{265f}',
    }
}

/// The glyph a piece is drawn with.
pub fn piece_glyph(piece: Piece) -> (s: String)
    ensures
        s@ == seq![glyph_char(piece)],
{
    let c = match (piece.kind, piece.color) {
        (PieceType::King, Color::White) => '\u{2654}',
        (PieceType::Queen, Color::White) => '\u{2655}',
        (PieceType::Rook, Color::White) => '\u{2656}',
        (PieceType::Bishop, Color::White) => '\u{2657}',
        (PieceType::Knight, Color::White) => '\u{2658}',
        (PieceType::Pawn, Color::White) => '\u{2659}',
        (PieceType::King, Color::Black) => '\u{265a}',
        (PieceType::Queen, Color::Black) => '\u{265b}',
        (PieceType::Rook, Color::Black) => '\u{265c}',
        (PieceType::Bishop, Color::Black) => '\u{265d}',
        (PieceType::Knight, Color::Black) => '\u{265e}',
        (PieceType::Pawn, Color::Black) => '\u{265f}',
    };
    let mut s = String::new();
    s.push(c);
    assert(s@ =~= seq![glyph_char(piece)]);
    s
}


// ── Choosing among a Polyglot book's entries ─────────────────────────────────

/// Sum of the first `n` weights.
pub open spec fn weight_sum(ws: Seq<u16>, n: int) -> int
    decreases n,
{
    if n <= 0 {
        0
    } else {
        weight_sum(ws, n - 1) + ws[n - 1]
    }
}

/// The entry from `i` on that `pick` falls into, when the entries take up
/// `ws[i]`, `ws[i + 1]`, ... in turn (the first entry when it falls past them).
pub open spec fn weighted_from(ws: Seq<u16>, i: int, pick: int) -> int
    decreases ws.len() - i,
{
    if i < 0 || i >= ws.len() {
        0
    } else if pick < ws[i] {
        i
    } else {
        weighted_from(ws, i + 1, pick - ws[i])
    }
}

/// The entry played from a Polyglot book whose entries weigh `ws`: drawn in
/// proportion to the weights by a number mixed from the game seed and the
/// plies played.
pub open spec fn polyglot_entry(ws: Seq<u16>, seed: u64, plies: int) -> int {
    let x = xorshift_spec(seed.wrapping_add(plies as u64));
    weighted_from(ws, 0, (x % (weight_sum(ws, ws.len() as int) as u64)) as int)
}

proof fn lemma_weight_sum_mono(ws: Seq<u16>, i: int, n: int)
    requires
        0 <= i <= n <= ws.len(),
    ensures
        0 <= weight_sum(ws, i) <= weight_sum(ws, n),
    decreases n,
{
    if i < n {
        lemma_weight_sum_mono(ws, i, n - 1);
    } else if i > 0 {
        lemma_weight_sum_mono(ws, i - 1, n - 1);
    }
}

/// Index of the entry to play from a Polyglot book whose entries weigh
/// `weights`, `plies` plies into the game.
pub fn polyglot_pick(weights: &Vec<u16>, seed: u64, plies: usize) -> (i: usize)
    requires
        weights@.len() > 0,
        0 < weight_sum(weights@, weights@.len() as int) <= u32::MAX,
    ensures
        i == polyglot_entry(weights@, seed, plies as int),
        i < weights@.len(),
{
    let ghost ws = weights@;
    let ghost n = ws.len() as int;
    let mut total: u32 = 0;
    let mut k: usize = 0;
    while k < weights.len()
        invariant
            k <= ws.len(),
            ws == weights@,
            n == ws.len(),
            total == weight_sum(ws, k as int),
            weight_sum(ws, n) <= u32::MAX,
        decreases ws.len() - k,
    {
        proof {
            lemma_weight_sum_mono(ws, k + 1, n);
        }
        total = total + weights[k] as u32;
        k += 1;
    }
    let x = xorshift(seed.wrapping_add(plies as u64));
    let mut pick: u32 = (x % (total as u64)) as u32;
    let ghost p0 = pick as int;
    assert(p0 == (x % (weight_sum(ws, n) as u64)) as int);
    let mut i: usize = 0;
    while i < weights.len()
        invariant
            i <= ws.len(),
            ws == weights@,
            n == ws.len(),
            n > 0,
            weighted_from(ws, i as int, pick as int) == weighted_from(ws, 0, p0),
            pick as int + weight_sum(ws, i as int) == p0,
            p0 < weight_sum(ws, n),
            weighted_from(ws, 0, p0) == polyglot_entry(ws, seed, plies as int),
        decreases ws.len() - i,
    {
        if pick < weights[i] as u32 {
            assert(weighted_from(ws, i as int, pick as int) == i);
            return i;
        }
        pick = pick - weights[i] as u32;
        i += 1;
    }
    proof {
        assert(false);
    }
    0
}

// ── Texts of the move list and the review line ───────────────────────────────

/// The line shown while reviewing the position after `view_index` plies.
pub open spec fn review_text_spec(view_index: int) -> Seq<char> {
    "Reviewing: move "@ + decimal((view_index / 2 + view_index % 2) as nat) + " ("@ + (if view_index % 2
        == 1 {
        "White"@
    } else {
        "Black"@
    }) + ") \u{2014} press \u{2192} or click >| to return"@
}

impl StockSharkApp {
    /// The review line: which move (and whose) the shown position follows.
    pub fn review_text(&self) -> (s: String)
        ensures
            s@ == review_text_spec(self.view_index as int),
    {
        let v = self.view_index;
        let mut s = String::new();
        push_text(&mut s, "Reviewing: move ");
        push_decimal(&mut s, (v / 2 + v % 2) as u64);
        push_text(&mut s, " (");
        if v % 2 == 1 {
            push_text(&mut s, "White");
        } else {
            push_text(&mut s, "Black");
        }
        push_text(&mut s, ") \u{2014} press \u{2192} or click >| to return");
        proof {
            assert(s@ =~= review_text_spec(v as int));
        }
        s
    }
}

/// The number written before White's move `i` (counting plies from 0) in the
/// move list; Black's moves get none.
pub fn move_number_label(i: usize) -> (r: Option<String>)
    ensures
        i % 2 == 0 ==> (r matches Some(s) && s@ == decimal((i / 2 + 1) as nat) + "."@),
        i % 2 == 1 ==> r is None,
{
    if i % 2 == 0 {
        let mut s = String::new();
        push_decimal(&mut s, (i / 2 + 1) as u64);
        push_text(&mut s, ".");
        proof {
            assert(s@ =~= decimal((i / 2 + 1) as nat) + "."@);
        }
        Some(s)
    } else {
        None
    }
}
/// How a game ends: a draw by insufficient material first; otherwise, with no
/// legal move, checkmate (the side to move is attacked on its king's square,
/// and the other side wins) or stalemate (it is not); otherwise a draw once the
/// halfmove clock reaches 100; otherwise the game goes on.
pub proof fn lemma_game_over_texts(p: Position)
    ensures
        insufficient_material(p.board@) ==> game_over_text(p) == Some("Draw by insufficient material."@),
        !insufficient_material(p.board@) && !has_legal_move(p) && attacked(
            p,
            p.king_sq@[p.side.idx()] as int,
            p.side.opposite(),
        ) ==> game_over_text(p) == Some(
            if p.side == Color::White {
                "Checkmate! Black wins."@
            } else {
                "Checkmate! White wins."@
            },
        ),
        !insufficient_material(p.board@) && !has_legal_move(p) && !attacked(
            p,
            p.king_sq@[p.side.idx()] as int,
            p.side.opposite(),
        ) ==> game_over_text(p) == Some("Stalemate! Draw."@),
        !insufficient_material(p.board@) && has_legal_move(p) && p.halfmove_clock >= 100 ==> game_over_text(p)
            == Some("Draw by 50-move rule."@),
        !insufficient_material(p.board@) && has_legal_move(p) && p.halfmove_clock < 100 ==> game_over_text(p)
            is None,
{
    reveal_strlit("Checkmate! ");
    reveal_strlit(" wins.");
    reveal_strlit("White");
    reveal_strlit("Black");
    reveal_strlit("Checkmate! Black wins.");
    reveal_strlit("Checkmate! White wins.");
    assert("Checkmate! "@ + "Black"@ + " wins."@ =~= "Checkmate! Black wins."@);
    assert("Checkmate! "@ + "White"@ + " wins."@ =~= "Checkmate! White wins."@);
}

} // verus!
