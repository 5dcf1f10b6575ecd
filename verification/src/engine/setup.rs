//! Starting a game, and the turn counters a client shows.
use vstd::prelude::*;
use crate::engine::board::CrownfallBoardState;
use crate::engine::hash::{position_hash, spec_position_hash};
use crate::engine::layouts::{
    grand_archers_layout, grand_layout, mini_archers_layout, mini_layout, spec_layout,
    standard_archers_layout, standard_layout,
};
use crate::engine::play::CrownfallGame;
use crate::engine::types::{
    spec_custom, CrownfallBoardVariant, CrownfallGameState, CrownfallPlayState, CrownfallPlayerKind,
    CrownfallRules, CrownfallRuleset,
};

verus! {

/// White to move, nothing else pending.
pub open spec fn spec_white_to_move() -> CrownfallGameState {
    CrownfallGameState::Playing(CrownfallPlayState::WaitingForInput { player: CrownfallPlayerKind::White })
}

/// `a - b`, or 0 when `b` exceeds `a`.
pub open spec fn spec_saturating_sub(a: u16, b: u16) -> u16 {
    if a >= b { (a - b) as u16 } else { 0 }
}

impl CrownfallGame {
    /// Builds a fresh game for the given ruleset: the matching starting
    /// board layout, White to move, and a history holding the starting
    /// position.
    pub fn new(rules: CrownfallRules) -> (r: CrownfallGame)
        ensures
            r.board@ == spec_layout(rules.board, rules.ruleset == CrownfallRuleset::Archers),
            r.board.spec_variant() == rules.board,
            r.state == spec_white_to_move(),
            r.rules == rules,
            r.history@ == seq![spec_position_hash(r.board@, CrownfallPlayerKind::White)],
            r.moves_since_capture == 0,
            r.spec_ready(),
    {
        let is_archers = rules.is_archers_ruleset();
        let board = match rules.board {
            CrownfallBoardVariant::Mini => if is_archers { mini_archers_layout() } else { mini_layout() },
            CrownfallBoardVariant::Normal => if is_archers { standard_archers_layout() } else { standard_layout() },
            CrownfallBoardVariant::Grand => if is_archers { grand_archers_layout() } else { grand_layout() },
        };
        let mut history: Vec<u32> = Vec::new();
        history.push(position_hash(&board, CrownfallPlayerKind::White));
        CrownfallGame {
            board,
            state: CrownfallGameState::Playing(CrownfallPlayState::WaitingForInput { player: CrownfallPlayerKind::White }),
            rules,
            history,
            moves_since_capture: 0,
        }
    }

    /// Assembles a game from an explicit board, state and rules, with an
    /// empty history and the no-progress counter at 0.
    pub fn from_parts(board: CrownfallBoardState, state: CrownfallGameState, rules: CrownfallRules) -> (r: CrownfallGame)
        ensures
            r.board == board,
            r.state == state,
            r.rules == rules,
            r.history@.len() == 0,
            r.moves_since_capture == 0,
    {
        CrownfallGame { board, state, rules, history: Vec::new(), moves_since_capture: 0 }
    }

    /// Turns remaining before the board's turn-limit draw fires: the limit
    /// minus the turns played (one fewer than the positions recorded), never
    /// below zero.
    pub fn turns_remaining(&self) -> (r: u16)
        requires
            self.history@.len() >= 1,
        ensures
            r == spec_saturating_sub(self.rules.board.spec_total_turn_limit(), (self.history@.len() - 1) as u16),
    {
        let turns_played = (self.history.len() - 1) as u16;
        self.rules.board.total_turn_limit().saturating_sub(turns_played)
    }

    /// Turns remaining before the no-progress draw fires if no capture
    /// happens in the meantime.
    pub fn turns_remaining_before_no_progress_draw(&self) -> (r: u16)
        ensures
            r == spec_saturating_sub(self.rules.board.spec_no_progress_limit(), self.moves_since_capture),
    {
        self.rules.board.no_progress_limit().saturating_sub(self.moves_since_capture)
    }
}

impl Default for CrownfallGame {
    /// A fresh Standard game.
    fn default() -> (r: CrownfallGame)
        ensures
            r.board@ == spec_layout(CrownfallBoardVariant::Normal, false),
            r.board.spec_variant() == CrownfallBoardVariant::Normal,
            r.state == spec_white_to_move(),
            r.rules == spec_custom(CrownfallBoardVariant::Normal, false, false, false, false),
            r.history@ == seq![spec_position_hash(r.board@, CrownfallPlayerKind::White)],
            r.moves_since_capture == 0,
    {
        CrownfallGame::new(CrownfallRules::standard())
    }
}

} // verus!
