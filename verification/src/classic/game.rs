//! Applying actions to a 7x7 game.
use vstd::prelude::*;
use crate::classic::board::spec_default_cell;
use crate::classic::errors::GameError;
use crate::classic::hash::{position_hash, spec_position_hash};
use crate::classic::rules::{
    spec_apply_captures, spec_continue, spec_count_key, spec_destinations, spec_handle_action,
    spec_handle_knight_removal, spec_handle_move, spec_other, spec_piece_captures, spec_moved,
    CaptureKind, Outcome, Pair, Snap, NO_PROGRESS_LIMIT, REPETITION_LIMIT, TOTAL_TURN_LIMIT,
};
use crate::classic::types::{
    BoardState, Cell, DrawReason, Game, GameState, PieceKind, PlayState, PlayerAction, PlayerKind,
    TurnResult,
};

verus! {

broadcast use vstd::array::group_array_axioms;

/// `r` is what the action's outcome `expected` says: the updated game and
/// turn result, or the error.
pub open spec fn spec_result_is(r: Result<(Game, Option<TurnResult>), GameError>, expected: Result<Outcome, GameError>) -> bool {
    match expected {
        Ok(o) => r matches Ok((g, res)) && {
            &&& g.board@ == o.cells
            &&& g.state == o.state
            &&& g.history@ == o.history
            &&& g.moves_since_capture == o.msc
            &&& res == o.result
        },
        Err(e) => r == Err::<(Game, Option<TurnResult>), GameError>(e),
    }
}

/// `a - b`, or 0 when `b` exceeds `a`.
pub open spec fn spec_saturating_sub(a: u16, b: u16) -> u16 {
    if a >= b { (a - b) as u16 } else { 0 }
}

fn contains_cell(v: &Vec<Cell>, c: Cell) -> (r: bool)
    ensures
        r == v@.contains(c),
{
    let mut k: usize = 0;
    while k < v.len()
        invariant
            k <= v@.len(),
            forall|j: int| 0 <= j < k ==> v@[j] != c,
        decreases v@.len() - k,
    {
        if v[k].index == c.index {
            assert(v@[k as int] == c);
            return true;
        }
        k = k + 1;
    }
    false
}

/// Records the position reached and returns the resulting state.
fn resolve_continuation(board: &BoardState, next_player: PlayerKind, history: &mut Vec<u64>, moves_since_capture: &mut u16, captured: bool) -> (r: GameState)
    requires
        captured || *old(moves_since_capture) < u16::MAX,
    ensures
        (r, final(history)@, *final(moves_since_capture)) == spec_continue(board@, next_player, old(history)@, *old(moves_since_capture), captured),
{
    if captured {
        *moves_since_capture = 0;
    } else {
        *moves_since_capture = *moves_since_capture + 1;
    }
    let key = position_hash(board, next_player);
    history.push(key);
    let mut repeats: usize = 0;
    let mut i: usize = 0;
    while i < history.len()
        invariant
            i <= history@.len(),
            repeats <= i,
            repeats == spec_count_key(history@, key, i as int),
        decreases history@.len() - i,
    {
        if history[i] == key {
            repeats = repeats + 1;
        }
        i = i + 1;
    }
    let turns_played = (history.len() - 1) as u16;
    if repeats >= REPETITION_LIMIT {
        GameState::Draw(DrawReason::Repetition)
    } else if *moves_since_capture >= NO_PROGRESS_LIMIT {
        GameState::Draw(DrawReason::NoProgress)
    } else if turns_played >= TOTAL_TURN_LIMIT {
        GameState::Draw(DrawReason::TurnLimit)
    } else {
        GameState::Playing(PlayState::WaitingForInput { player: next_player })
    }
}

impl Default for Game {
    /// A fresh game: the starting layout, White to move, the starting
    /// position recorded.
    fn default() -> (r: Game)
        ensures
            r.board@ == Seq::new(49, |i: int| spec_default_cell(i)),
            r.state == GameState::Playing(PlayState::WaitingForInput { player: PlayerKind::White }),
            r.history@ == seq![spec_position_hash(r.board@, PlayerKind::White)],
            r.moves_since_capture == 0,
    {
        let board = BoardState::default();
        let mut history: Vec<u64> = Vec::new();
        history.push(position_hash(&board, PlayerKind::White));
        Game {
            board,
            state: GameState::Playing(PlayState::WaitingForInput { player: PlayerKind::White }),
            history,
            moves_since_capture: 0,
        }
    }
}

impl Game {
    /// The game as plain values.
    pub open spec fn snap(&self) -> Snap {
        Snap { cells: self.board@, state: self.state, history: self.history@, msc: self.moves_since_capture }
    }

    /// Turns remaining before the turn-limit draw fires.
    pub fn turns_remaining(&self) -> (r: u16)
        requires
            self.history@.len() >= 1,
        ensures
            r == spec_saturating_sub(TOTAL_TURN_LIMIT, (self.history@.len() - 1) as u16),
    {
        let turns_played = (self.history.len() - 1) as u16;
        TOTAL_TURN_LIMIT.saturating_sub(turns_played)
    }

    /// Turns remaining before the no-progress draw fires if no capture
    /// happens in the meantime.
    pub fn turns_remaining_before_no_progress_draw(&self) -> (r: u16)
        ensures
            r == spec_saturating_sub(NO_PROGRESS_LIMIT, self.moves_since_capture),
    {
        NO_PROGRESS_LIMIT.saturating_sub(self.moves_since_capture)
    }

    /// Applies `action`, returning the updated game and the turn result, or
    /// the reason the action was refused.
    pub fn handle_player_action(self, action: PlayerAction) -> (r: Result<(Game, Option<TurnResult>), GameError>)
        requires
            ({
                &&& self.state is Playing
                &&& !(action is Surrender)
                &&& self.state->Playing_0.spec_player() == action.spec_player()
            }) ==> self.moves_since_capture < u16::MAX && crate::classic::rules::spec_action_in_bounds(action),
        ensures
            spec_result_is(r, spec_handle_action(self.snap(), action)),
    {
        match &self.state {
            GameState::Playing(play_state) => {
                if !matches!(action, PlayerAction::Surrender { .. }) && play_state.player() != action.player() {
                    return Err(GameError::NotYourTurn(action.player()));
                }
            },
            GameState::Victory(_) => {
                return Err(GameError::GameOver(action.player()));
            },
            GameState::Draw(_) => {
                return Err(GameError::GameOver(action.player()));
            },
        }
        match action {
            PlayerAction::Move { player, from, to } => self.handle_move(player, from, to),
            PlayerAction::KnightRemoval { player, at } => self.handle_knight_removal(player, at),
            PlayerAction::Surrender { player } => Ok((
                Game {
                    board: self.board,
                    state: GameState::Victory(player.opposite()),
                    history: self.history,
                    moves_since_capture: self.moves_since_capture,
                },
                None,
            )),
        }
    }

    fn handle_move(self, player: PlayerKind, from: Cell, to: Cell) -> (r: Result<(Game, Option<TurnResult>), GameError>)
        requires
            from.index < 49,
            self.moves_since_capture < u16::MAX,
        ensures
            spec_result_is(r, spec_handle_move(self.snap(), player, from, to)),
    {
        let ghost g = self.snap();
        let piece = match self.board.cells[from.index] {
            Some(p) => p,
            None => {
                return Err(GameError::EmptyMove(player, from));
            },
        };
        if piece.player != player {
            return Err(GameError::EnemyMove(player, from));
        }
        let dests = self.board.get_valid_destinations_for(from);
        if !contains_cell(&dests, to) {
            return Err(GameError::InvalidDestination(player, from, to));
        }
        let t = to.index;
        let opp = player.opposite();
        let mut history = self.history;
        let mut msc = self.moves_since_capture;
        let mut board = self.board;
        board.cells[from.index] = None;
        board.cells[t] = Some(piece);
        let ghost b = board@;
        assert(b == spec_moved(g.cells, from.index as int, t as int, piece));
        // Losing one's own Crown comes first and pre-empts everything else.
        if board.own_crown_trap(t, player) {
            board.cells[t] = None;
            return Ok((
                Game { board, state: GameState::Victory(opp), history, moves_since_capture: msc },
                Some(TurnResult::Victory { player, surrounded_crown: to }),
            ));
        }
        match board.crown_capture(t, player) {
            Some(c) => {
                board.cells[c] = None;
                return Ok((
                    Game { board, state: GameState::Victory(player), history, moves_since_capture: msc },
                    Some(TurnResult::Victory { player, surrounded_crown: Cell { index: c } }),
                ));
            },
            None => {},
        }
        // A Spy pincer takes the moved piece even when it walked in itself.
        if board.self_spy_trap(t, player) {
            let pair = match board.find_pair(t, opp) {
                Some(p) => p,
                None => {
                    return Err(GameError::InvalidDestination(player, from, to));
                },
            };
            board.cells[t] = None;
            let state = if board.attrition_defeated(player) {
                GameState::Victory(opp)
            } else {
                resolve_continuation(&board, opp, &mut history, &mut msc, true)
            };
            return Ok((
                Game { board, state, history, moves_since_capture: msc },
                Some(TurnResult::Capture { player, last_move_from: from, last_move_to: to, removed: to, second_attacker: Cell { index: pair.second } }),
            ));
        }
        let caps = board.piece_captures(t, player);
        let ghost sc = spec_piece_captures(b, t as int, player);
        if caps.len() > 0 {
            let mut k: usize = 0;
            while k < caps.len()
                invariant
                    k <= caps@.len(),
                    t < 49,
                    caps@.len() == sc.len(),
                    forall|j: int| 0 <= j < caps@.len() ==> {
                        &&& (#[trigger] caps@[j]).0 as int == sc[j].0
                        &&& caps@[j].1 == sc[j].1
                        &&& caps@[j].0 < 49
                        &&& caps@[j].1.first < 49
                        &&& caps@[j].1.second < 49
                    },
                    board@ == spec_apply_captures(b, sc, k as int, t as int, piece.kind),
                decreases caps@.len() - k,
            {
                let (target, pair) = caps[k];
                let was_knight = match board.cells[target] {
                    Some(pc) => pc.kind == PieceKind::Knight,
                    None => false,
                };
                board.cells[target] = None;
                if pair.kind == CaptureKind::Knight && was_knight {
                    let lost = if piece.kind == PieceKind::Crown {
                        if pair.first == t { pair.second } else { pair.first }
                    } else {
                        t
                    };
                    board.cells[lost] = None;
                }
                k = k + 1;
            }
            let (first_target, first_pair) = caps[0];
            let second = if first_pair.first == t { first_pair.second } else { first_pair.first };
            let state = if board.mutual_exhaustion() {
                GameState::Draw(DrawReason::MutualKnightExhaustion)
            } else if board.attrition_defeated(opp) {
                GameState::Victory(player)
            } else {
                resolve_continuation(&board, opp, &mut history, &mut msc, true)
            };
            return Ok((
                Game { board, state, history, moves_since_capture: msc },
                Some(TurnResult::Capture {
                    player,
                    last_move_from: from,
                    last_move_to: to,
                    removed: Cell { index: first_target },
                    second_attacker: Cell { index: second },
                }),
            ));
        }
        let state = resolve_continuation(&board, opp, &mut history, &mut msc, false);
        Ok((Game { board, state, history, moves_since_capture: msc }, Some(TurnResult::PieceMove { player, from, to })))
    }

    fn handle_knight_removal(self, player: PlayerKind, at: Cell) -> (r: Result<(Game, Option<TurnResult>), GameError>)
        requires
            at.index < 49,
        ensures
            spec_result_is(r, spec_handle_knight_removal(self.snap(), player, at)),
    {
        match self.board.cells[at.index] {
            None => Err(GameError::EmptyKnightRemoval(player, at)),
            Some(cell) => {
                if cell.player == player {
                    let mut board = self.board;
                    board.cells[at.index] = None;
                    let mut history = self.history;
                    let mut msc = self.moves_since_capture;
                    let state = resolve_continuation(&board, player.opposite(), &mut history, &mut msc, true);
                    Ok((Game { board, state, history, moves_since_capture: msc }, None))
                } else {
                    Err(GameError::EnemyKnightRemoval(player, at))
                }
            },
        }
    }
}

} // verus!
