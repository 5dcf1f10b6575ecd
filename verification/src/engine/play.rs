//! A game in progress and the application of actions to it.
use vstd::prelude::*;
use crate::engine::board::CrownfallBoardState;
use crate::engine::captures::{
    spec_check_piece_captures, spec_check_archer_capture, ArcherCapture, ArcherList, AttackPair,
    CaptureKind, CaptureList, PieceCapture,
};
use crate::engine::errors::CrownfallError;
use crate::engine::hash::{
    cell_key, lemma_cells_hash_update, position_hash, side_to_move_toggle, spec_cell_key,
    spec_cells_hash,
};
use crate::engine::rules::{
    spec_after_removal, spec_apply_action, spec_apply_archer_captures, spec_apply_knight_removal,
    spec_apply_move, spec_apply_piece_captures, spec_archer_result, spec_attrition_defeated,
    spec_capture_result, spec_cell, spec_continue, spec_count, spec_count_repeats,
    spec_first_of, spec_other_attacker, spec_piece_count, spec_resolve_all,
    spec_resolve_sequential, spec_trap_result, Outcome, Snap, REPETITION_LIMIT,
};
use crate::engine::captures::spec_moved;
use crate::engine::tables::cell_count;
use crate::engine::types::{
    spec_cell_count, CrownfallBoardCell, CrownfallBoardVariant, CrownfallGameState, CrownfallPiece,
    CrownfallPieceKind, CrownfallPlayState, CrownfallPlayerAction, CrownfallPlayerKind,
    CrownfallRules, CrownfallRuleset, CrownfallTurnResult, DrawReason, WinReason,
};

verus! {

#[derive(Clone, Debug, Eq, PartialEq)]
pub struct CrownfallGame {
    pub board: CrownfallBoardState,
    pub state: CrownfallGameState,
    pub rules: CrownfallRules,
    /// Hashes of past positions (board + player to move), used to detect
    /// threefold repetition.
    pub history: Vec<u32>,
    /// Turns played since the last capture (the no-progress draw rule).
    pub moves_since_capture: u16,
}

/// A copy of `game` with its own history.
pub fn copy_game(game: &CrownfallGame) -> (r: CrownfallGame)
    ensures
        r.board == game.board,
        r.state == game.state,
        r.rules == game.rules,
        r.history@ == game.history@,
        r.moves_since_capture == game.moves_since_capture,
{
    let mut history: Vec<u32> = Vec::new();
    let mut i: usize = 0;
    while i < game.history.len()
        invariant
            i <= game.history@.len(),
            history@ == game.history@.subrange(0, i as int),
        decreases game.history@.len() - i,
    {
        history.push(game.history[i]);
        i = i + 1;
        assert(history@ =~= game.history@.subrange(0, i as int));
    }
    assert(history@ =~= game.history@);
    CrownfallGame {
        board: game.board,
        state: game.state,
        rules: game.rules,
        history,
        moves_since_capture: game.moves_since_capture,
    }
}

/// The XOR of the hash keys of every cell change an action has made so
/// far: the difference between the starting and the current board hash.
pub struct MoveScratch {
    pub hash_delta: u32,
}

impl MoveScratch {
    pub fn new() -> (r: MoveScratch)
        ensures
            r.hash_delta == 0,
    {
        MoveScratch { hash_delta: 0 }
    }

    pub fn reset(&mut self)
        ensures
            final(self).hash_delta == 0,
    {
        self.hash_delta = 0;
    }
}

/// Hash of a whole cell sequence.
pub open spec fn spec_hash_of(cells: Seq<Option<CrownfallPiece>>) -> u32 {
    spec_cells_hash(cells, cells.len() as int)
}

/// `delta` is the hash difference between `start` and `now`.
pub open spec fn spec_delta_ok(delta: u32, start: Seq<Option<CrownfallPiece>>, now: Seq<Option<CrownfallPiece>>) -> bool {
    delta == spec_hash_of(start) ^ spec_hash_of(now)
}

impl CrownfallGame {
    /// The game as plain values.
    pub open spec fn snap(&self) -> Snap {
        Snap {
            cells: self.board@,
            state: self.state,
            rules: self.rules,
            history: self.history@,
            msc: self.moves_since_capture,
        }
    }

    /// The board matches the rules' board size and the no-progress counter
    /// can still count one more turn.
    pub open spec fn spec_ready(&self) -> bool {
        &&& self.board.spec_variant() == self.rules.board
        &&& self.moves_since_capture < u16::MAX
    }

    /// An action can be applied: the board matches the rules' board size,
    /// and while the game is in play the no-progress counter can count one
    /// more turn.
    pub open spec fn spec_playable(&self) -> bool {
        &&& self.board.spec_variant() == self.rules.board
        &&& (self.state is Playing ==> self.moves_since_capture < u16::MAX)
    }

    /// `self` is what applying an action to `before` left: the outcome's
    /// values on success, `before` itself on an error.
    pub open spec fn spec_applied(&self, before: Snap, res: Result<Option<CrownfallTurnResult>, CrownfallError>, expected: Result<Outcome, CrownfallError>) -> bool {
        &&& self.rules == before.rules
        &&& match expected {
            Ok(o) => {
                &&& res == Ok::<Option<CrownfallTurnResult>, CrownfallError>(o.result)
                &&& self.board@ == o.cells
                &&& self.state == o.state
                &&& self.history@ == o.history
                &&& self.moves_since_capture == o.msc
            },
            Err(e) => {
                &&& res == Err::<Option<CrownfallTurnResult>, CrownfallError>(e)
                &&& self.board@ == before.cells
                &&& self.state == before.state
                &&& self.history@ == before.history
                &&& self.moves_since_capture == before.msc
            },
        }
    }

    /// Writes cell `index`, folding the change into the hash delta.
    fn write_cell(&mut self, index: usize, new: Option<CrownfallPiece>, scratch: &mut MoveScratch, Ghost(start): Ghost<Seq<Option<CrownfallPiece>>>)
        requires
            index < old(self).board@.len(),
            old(self).board@.len() <= 81,
            spec_delta_ok(old(scratch).hash_delta, start, old(self).board@),
        ensures
            final(self).board@ == old(self).board@.update(index as int, new),
            final(self).board.spec_variant() == old(self).board.spec_variant(),
            final(self).state == old(self).state,
            final(self).rules == old(self).rules,
            final(self).history@ == old(self).history@,
            final(self).moves_since_capture == old(self).moves_since_capture,
            spec_delta_ok(final(scratch).hash_delta, start, final(self).board@),
    {
        let old_cell = self.board.get(index);
        let ghost before = self.board@;
        let ko = cell_key(index, old_cell);
        let kn = cell_key(index, new);
        self.board.set(index, new);
        proof {
            lemma_cells_hash_update(before, index as int, new, before.len() as int);
            let hs = spec_hash_of(start);
            let hb = spec_hash_of(before);
            assert(hs ^ ((hb ^ ko) ^ kn) == ((hs ^ hb) ^ ko) ^ kn) by (bit_vector);
        }
        scratch.hash_delta = scratch.hash_delta ^ ko ^ kn;
    }

    /// How many pieces of `kind` owned by `player` are on the board.
    pub fn piece_count(&self, kind: CrownfallPieceKind, player: CrownfallPlayerKind) -> (r: usize)
        ensures
            r == spec_piece_count(self.board@, kind, player),
            r <= self.board@.len(),
    {
        let cells = self.board.cells();
        proof {
            self.board.lemma_len();
        }
        let mut n: usize = 0;
        let mut i: usize = 0;
        while i < cells.len()
            invariant
                cells@ == self.board@,
                cells@.len() <= 81,
                i <= cells@.len(),
                n <= i,
                n == spec_count(self.board@, kind, player, i as int),
            decreases cells@.len() - i,
        {
            match cells[i] {
                Some(p) => {
                    if p.kind() == kind && p.player() == player {
                        n = n + 1;
                    }
                },
                None => {},
            }
            i = i + 1;
        }
        n
    }

    /// One or fewer Knights and one or fewer Spies left for `player`.
    pub fn attrition_defeated(&self, player: CrownfallPlayerKind) -> (r: bool)
        ensures
            r == spec_attrition_defeated(self.board@, player),
    {
        self.piece_count(CrownfallPieceKind::Knight, player) <= 1 && self.piece_count(CrownfallPieceKind::Spy, player) <= 1
    }

    /// Records the position just reached and returns the resulting state.
    fn resolve_continuation(&mut self, next_player: CrownfallPlayerKind, captured: bool, scratch: &MoveScratch, Ghost(start): Ghost<Seq<Option<CrownfallPiece>>>) -> (r: CrownfallGameState)
        requires
            old(self).moves_since_capture < u16::MAX,
            old(self).board@.len() <= 81,
            spec_delta_ok(scratch.hash_delta, start, old(self).board@),
        ensures
            ({
                let (state, h, m) = spec_continue(
                    start,
                    old(self).board@,
                    old(self).rules.board,
                    old(self).history@,
                    old(self).moves_since_capture,
                    next_player,
                    captured,
                );
                r == state && final(self).history@ == h && final(self).moves_since_capture == m
            }),
            final(self).board == old(self).board,
            final(self).state == old(self).state,
            final(self).rules == old(self).rules,
    {
        if captured {
            self.moves_since_capture = 0;
        } else {
            self.moves_since_capture = self.moves_since_capture + 1;
        }
        let key = match self.history.last() {
            Some(previous) => *previous ^ scratch.hash_delta ^ side_to_move_toggle(),
            None => position_hash(&self.board, next_player),
        };
        self.history.push(key);
        let len = self.history.len();
        let window: usize = if (self.moves_since_capture as usize) + 1 < len {
            (self.moves_since_capture as usize) + 1
        } else {
            len
        };
        let mut repeats: usize = 0;
        let mut j: usize = 0;
        while j < window
            invariant
                window <= len,
                len == self.history@.len(),
                j <= window,
                repeats <= j,
                repeats == spec_count_repeats(self.history@, key, j as int),
            decreases window - j,
        {
            if j % 2 == 0 && self.history[len - 1 - j] == key {
                repeats = repeats + 1;
            }
            j = j + 1;
        }
        let turns_played = (len - 1) as u16;
        if repeats >= REPETITION_LIMIT as usize {
            CrownfallGameState::Draw(DrawReason::Repetition)
        } else if self.moves_since_capture >= self.rules.board.no_progress_limit() {
            CrownfallGameState::Draw(DrawReason::NoProgress)
        } else if turns_played >= self.rules.board.total_turn_limit() {
            CrownfallGameState::Draw(DrawReason::TurnLimit)
        } else {
            CrownfallGameState::Playing(CrownfallPlayState::WaitingForInput { player: next_player })
        }
    }

    /// End-of-turn resolution after pieces were removed this move.
    fn resolve_after_removal(&mut self, player: CrownfallPlayerKind, scratch: &MoveScratch, Ghost(start): Ghost<Seq<Option<CrownfallPiece>>>) -> (r: CrownfallGameState)
        requires
            old(self).moves_since_capture < u16::MAX,
            old(self).board@.len() <= 81,
            spec_delta_ok(scratch.hash_delta, start, old(self).board@),
        ensures
            ({
                let (state, h, m) = spec_after_removal(
                    start,
                    old(self).board@,
                    old(self).rules,
                    old(self).history@,
                    old(self).moves_since_capture,
                    player,
                );
                r == state && final(self).history@ == h && final(self).moves_since_capture == m
            }),
            final(self).board == old(self).board,
            final(self).state == old(self).state,
            final(self).rules == old(self).rules,
    {
        if !self.rules.is_archers_ruleset() && self.attrition_defeated(player.opposite()) {
            CrownfallGameState::Victory(player, WinReason::Attrition)
        } else {
            self.resolve_continuation(player.opposite(), true, scratch, Ghost(start))
        }
    }
}

} // verus!

verus! {

impl CrownfallGame {
    /// Removes every target in `caps`, sacrificing an attacking Knight where
    /// the Knight Capture rule requires it, and reports the first capture.
    fn apply_piece_captures(&mut self, caps: &CaptureList, player: CrownfallPlayerKind, from: CrownfallBoardCell, to: CrownfallBoardCell, piece: CrownfallPiece, scratch: &mut MoveScratch, Ghost(start): Ghost<Seq<Option<CrownfallPiece>>>) -> (r: CrownfallTurnResult)
        requires
            0 < caps.len <= 8,
            old(self).board.spec_variant() == old(self).rules.board,
            old(self).board@.len() == spec_cell_count(old(self).rules.board),
            to.index < spec_cell_count(old(self).rules.board),
            forall|k: int| 0 <= k < caps@.len() ==> (#[trigger] caps@[k]).target < spec_cell_count(old(self).rules.board)
                && caps@[k].pair.first < spec_cell_count(old(self).rules.board)
                && caps@[k].pair.second < spec_cell_count(old(self).rules.board),
            spec_delta_ok(old(scratch).hash_delta, start, old(self).board@),
        ensures
            final(self).board@ == spec_apply_piece_captures(old(self).board@, old(self).rules.board, caps@, caps@.len() as int, player, to.index as int, piece.spec_kind(), old(self).rules),
            r == spec_capture_result(player, from.index as int, to.index as int, caps@[0]),
            final(self).board.spec_variant() == old(self).board.spec_variant(),
            final(self).state == old(self).state,
            final(self).rules == old(self).rules,
            final(self).history@ == old(self).history@,
            final(self).moves_since_capture == old(self).moves_since_capture,
            spec_delta_ok(final(scratch).hash_delta, start, final(self).board@),
    {
        let ghost b0 = self.board@;
        let v = self.rules.board;
        let to_index = to.to_index();
        let mut k: usize = 0;
        while k < caps.len
            invariant
                0 < caps.len <= 8,
                k <= caps.len,
                v == self.rules.board,
                self.rules == old(self).rules,
                self.board.spec_variant() == v,
                self.board@.len() == spec_cell_count(v),
                to_index == to.index,
                to_index < spec_cell_count(v),
                forall|j: int| 0 <= j < caps@.len() ==> (#[trigger] caps@[j]).target < spec_cell_count(v)
                    && caps@[j].pair.first < spec_cell_count(v) && caps@[j].pair.second < spec_cell_count(v),
                self.board@ == spec_apply_piece_captures(b0, v, caps@, k as int, player, to_index as int, piece.spec_kind(), self.rules),
                self.state == old(self).state,
                self.history@ == old(self).history@,
                self.moves_since_capture == old(self).moves_since_capture,
                spec_delta_ok(scratch.hash_delta, start, self.board@),
            decreases caps.len - k,
        {
            let cap = caps.items[k];
            assert(cap == caps@[k as int]);
            let target_was_knight = match self.board.get(cap.target) {
                Some(p) => p.kind() == CrownfallPieceKind::Knight,
                None => false,
            };
            self.write_cell(cap.target, None, scratch, Ghost(start));
            let second = CrownfallBoardState::other_attacker(cap.pair, to_index);
            let waived = self.rules.ruleset.knight_mass_capture() && self.board.has_mass_knight_arc(cap.target, player, self.rules);
            if cap.pair.kind == CaptureKind::Knight && target_was_knight && !waived {
                let lost = if piece.kind() == CrownfallPieceKind::Crown {
                    second
                } else {
                    to_index
                };
                self.write_cell(lost, None, scratch, Ghost(start));
            }
            k = k + 1;
        }
        let first = caps.items[0];
        assert(first == caps@[0]);
        CrownfallTurnResult::Capture {
            player,
            last_move_from: from,
            last_move_to: to,
            removed: CrownfallBoardCell::new_index(first.target),
            second_attacker: CrownfallBoardCell::new_index(CrownfallBoardState::other_attacker(first.pair, to_index)),
        }
    }

    /// Removes every Archer-shot target and reports the first.
    fn apply_archer_captures(&mut self, acs: &ArcherList, player: CrownfallPlayerKind, from: CrownfallBoardCell, to: CrownfallBoardCell, scratch: &mut MoveScratch, Ghost(start): Ghost<Seq<Option<CrownfallPiece>>>) -> (r: CrownfallTurnResult)
        requires
            0 < acs.len <= 4,
            old(self).board@.len() == spec_cell_count(old(self).board.spec_variant()),
            forall|k: int| 0 <= k < acs@.len() ==> (#[trigger] acs@[k]).target < spec_cell_count(old(self).board.spec_variant())
                && acs@[k].ally < spec_cell_count(old(self).board.spec_variant()),
            spec_delta_ok(old(scratch).hash_delta, start, old(self).board@),
        ensures
            final(self).board@ == spec_apply_archer_captures(old(self).board@, acs@, acs@.len() as int),
            r == spec_archer_result(player, from.index as int, to.index as int, acs@[0]),
            final(self).board.spec_variant() == old(self).board.spec_variant(),
            final(self).state == old(self).state,
            final(self).rules == old(self).rules,
            final(self).history@ == old(self).history@,
            final(self).moves_since_capture == old(self).moves_since_capture,
            spec_delta_ok(final(scratch).hash_delta, start, final(self).board@),
    {
        let ghost b0 = self.board@;
        let mut k: usize = 0;
        while k < acs.len
            invariant
                0 < acs.len <= 4,
                k <= acs.len,
                self.board.spec_variant() == old(self).board.spec_variant(),
                self.board@.len() == spec_cell_count(old(self).board.spec_variant()),
                forall|j: int| 0 <= j < acs@.len() ==> (#[trigger] acs@[j]).target < spec_cell_count(old(self).board.spec_variant())
                    && acs@[j].ally < spec_cell_count(old(self).board.spec_variant()),
                self.board@ == spec_apply_archer_captures(b0, acs@, k as int),
                self.state == old(self).state,
                self.rules == old(self).rules,
                self.history@ == old(self).history@,
                self.moves_since_capture == old(self).moves_since_capture,
                spec_delta_ok(scratch.hash_delta, start, self.board@),
            decreases acs.len - k,
        {
            let ac = acs.items[k];
            assert(ac == acs@[k as int]);
            self.write_cell(ac.target, None, scratch, Ghost(start));
            k = k + 1;
        }
        let first = acs.items[0];
        assert(first == acs@[0]);
        CrownfallTurnResult::Capture {
            player,
            last_move_from: from,
            last_move_to: to,
            removed: CrownfallBoardCell::new_index(first.target),
            second_attacker: CrownfallBoardCell::new_index(first.ally),
        }
    }
}

} // verus!

verus! {

/// An empty Archer-capture list.
fn no_archer_captures() -> (r: ArcherList)
    ensures
        r.len == 0,
        r@ == Seq::<ArcherCapture>::empty(),
{
    let r = ArcherList { items: [ArcherCapture { target: 0, ally: 0 }; 4], len: 0 };
    assert(r@ =~= Seq::<ArcherCapture>::empty());
    r
}

impl CrownfallGame {
    /// Standard capture resolution after the step `from -> to` has been
    /// played on the board.
    fn apply_move_sequential(&mut self, player: CrownfallPlayerKind, from: CrownfallBoardCell, to: CrownfallBoardCell, piece: CrownfallPiece, scratch: &mut MoveScratch, Ghost(g): Ghost<Snap>) -> (r: Option<CrownfallTurnResult>)
        requires
            old(self).board.spec_variant() == old(self).rules.board,
            old(self).board@.len() == spec_cell_count(old(self).rules.board),
            old(self).moves_since_capture < u16::MAX,
            from.index < spec_cell_count(old(self).rules.board),
            to.index < spec_cell_count(old(self).rules.board),
            g.rules == old(self).rules,
            g.history == old(self).history@,
            g.msc == old(self).moves_since_capture,
            old(self).board@ == spec_moved(g.cells, from.index as int, to.index as int, piece),
            spec_delta_ok(old(scratch).hash_delta, g.cells, old(self).board@),
        ensures
            ({
                let o = spec_resolve_sequential(g, old(self).board@, player, from.index as int, to.index as int, piece);
                &&& r == o.result
                &&& final(self).board@ == o.cells
                &&& final(self).state == o.state
                &&& final(self).history@ == o.history
                &&& final(self).moves_since_capture == o.msc
            }),
            final(self).rules == old(self).rules,
            final(self).board.spec_variant() == old(self).board.spec_variant(),
    {
        let ghost s1 = self.board@;
        let ghost start = g.cells;
        let to_index = to.to_index();
        let rules = self.rules;
        match self.board.check_crown_capture(to_index, player, rules) {
            Some(c) => {
                self.write_cell(c, None, scratch, Ghost(start));
                self.state = CrownfallGameState::Victory(player, WinReason::CrownCaptured);
                return Some(CrownfallTurnResult::Victory { player, surrounded_crown: CrownfallBoardCell::new_index(c) });
            },
            None => {},
        }
        if self.board.check_self_spy_trap(to_index, player, rules) {
            let pair = self.board.find_attacking_pair(to_index, player.opposite(), rules);
            let second = match pair {
                Some(p) => p.second,
                None => to_index,
            };
            self.write_cell(to_index, None, scratch, Ghost(start));
            self.state = self.resolve_after_removal(player, scratch, Ghost(start));
            return Some(CrownfallTurnResult::Capture {
                player,
                last_move_from: from,
                last_move_to: to,
                removed: to,
                second_attacker: CrownfallBoardCell::new_index(second),
            });
        }
        let caps = self.board.check_piece_captures(to_index, player, rules);
        let acs = if piece.kind() == CrownfallPieceKind::Archer {
            self.board.check_archer_capture(to_index, player)
        } else {
            no_archer_captures()
        };
        if caps.len > 0 {
            let result = self.apply_piece_captures(&caps, player, from, to, piece, scratch, Ghost(start));
            self.state = self.resolve_after_removal(player, scratch, Ghost(start));
            return Some(result);
        }
        if acs.len > 0 {
            let result = self.apply_archer_captures(&acs, player, from, to, scratch, Ghost(start));
            self.state = self.resolve_after_removal(player, scratch, Ghost(start));
            return Some(result);
        }
        self.state = self.resolve_continuation(player.opposite(), false, scratch, Ghost(start));
        Some(CrownfallTurnResult::PieceMove { player, from, to })
    }

    /// All-captures-processed resolution: every check runs against the board
    /// right after the step, and every removal found is applied.
    fn apply_move_all_captures_processed(&mut self, player: CrownfallPlayerKind, from: CrownfallBoardCell, to: CrownfallBoardCell, piece: CrownfallPiece, scratch: &mut MoveScratch, Ghost(g): Ghost<Snap>) -> (r: Option<CrownfallTurnResult>)
        requires
            old(self).board.spec_variant() == old(self).rules.board,
            old(self).board@.len() == spec_cell_count(old(self).rules.board),
            old(self).moves_since_capture < u16::MAX,
            from.index < spec_cell_count(old(self).rules.board),
            to.index < spec_cell_count(old(self).rules.board),
            g.rules == old(self).rules,
            g.history == old(self).history@,
            g.msc == old(self).moves_since_capture,
            old(self).board@ == spec_moved(g.cells, from.index as int, to.index as int, piece),
            spec_delta_ok(old(scratch).hash_delta, g.cells, old(self).board@),
        ensures
            ({
                let o = spec_resolve_all(g, old(self).board@, player, from.index as int, to.index as int, piece);
                &&& r == o.result
                &&& final(self).board@ == o.cells
                &&& final(self).state == o.state
                &&& final(self).history@ == o.history
                &&& final(self).moves_since_capture == o.msc
            }),
            final(self).rules == old(self).rules,
            final(self).board.spec_variant() == old(self).board.spec_variant(),
    {
        let ghost start = g.cells;
        let to_index = to.to_index();
        let rules = self.rules;
        let snapshot = self.board;
        let crown = snapshot.check_crown_capture(to_index, player, rules);
        let trapped = snapshot.check_self_spy_trap(to_index, player, rules);
        let caps = snapshot.check_piece_captures(to_index, player, rules);
        let acs = if piece.kind() == CrownfallPieceKind::Archer {
            snapshot.check_archer_capture(to_index, player)
        } else {
            no_archer_captures()
        };
        let mut any_capture = false;
        let mut turn_result: Option<CrownfallTurnResult> = None;
        match crown {
            Some(c) => {
                self.write_cell(c, None, scratch, Ghost(start));
                any_capture = true;
                turn_result = Some(CrownfallTurnResult::Victory { player, surrounded_crown: CrownfallBoardCell::new_index(c) });
            },
            None => {},
        }
        if trapped {
            let pair = snapshot.find_attacking_pair(to_index, player.opposite(), rules);
            let second = match pair {
                Some(p) => p.second,
                None => to_index,
            };
            self.write_cell(to_index, None, scratch, Ghost(start));
            any_capture = true;
            if turn_result.is_none() {
                turn_result = Some(CrownfallTurnResult::Capture {
                    player,
                    last_move_from: from,
                    last_move_to: to,
                    removed: to,
                    second_attacker: CrownfallBoardCell::new_index(second),
                });
            }
        }
        if caps.len > 0 {
            let result = self.apply_piece_captures(&caps, player, from, to, piece, scratch, Ghost(start));
            any_capture = true;
            if turn_result.is_none() {
                turn_result = Some(result);
            }
        }
        if acs.len > 0 {
            let result = self.apply_archer_captures(&acs, player, from, to, scratch, Ghost(start));
            any_capture = true;
            if turn_result.is_none() {
                turn_result = Some(result);
            }
        }
        if crown.is_some() {
            // A captured Crown always ends the game, whatever else happened.
            self.state = CrownfallGameState::Victory(player, WinReason::CrownCaptured);
            return turn_result;
        }
        if any_capture {
            self.state = self.resolve_after_removal(player, scratch, Ghost(start));
            return turn_result;
        }
        self.state = self.resolve_continuation(player.opposite(), false, scratch, Ghost(start));
        Some(CrownfallTurnResult::PieceMove { player, from, to })
    }
}

} // verus!

verus! {

impl CrownfallGame {
    fn apply_move(&mut self, player: CrownfallPlayerKind, from: CrownfallBoardCell, to: CrownfallBoardCell, validate_mandatory_capture: bool) -> (r: Result<Option<CrownfallTurnResult>, CrownfallError>)
        requires
            old(self).spec_ready(),
        ensures
            final(self).spec_applied(old(self).snap(), r, spec_apply_move(old(self).snap(), player, from.index as int, to.index as int, validate_mandatory_capture)),
            final(self).board.spec_variant() == old(self).board.spec_variant(),
    {
        let ghost g = self.snap();
        proof {
            self.board.lemma_len();
        }
        let from_index = from.to_index();
        let to_index = to.to_index();
        let cc = cell_count(self.rules.board);
        // A cell is just an index: reject out-of-range ones rather than
        // touching the board with them.
        if from_index >= cc {
            return Err(CrownfallError::EmptyMove(player, from));
        }
        if to_index >= cc {
            return Err(CrownfallError::InvalidDestination(player, from, to));
        }
        let piece = match self.board.get(from_index) {
            Some(p) => p,
            None => return Err(CrownfallError::EmptyMove(player, from)),
        };
        if piece.player() != player {
            return Err(CrownfallError::EnemyMove(player, from));
        }
        if self.board.get(to_index).is_some() || !self.board.move_candidates(from_index, self.rules).contains(to_index) {
            return Err(CrownfallError::InvalidDestination(player, from, to));
        }
        if validate_mandatory_capture && self.rules.ruleset.mandatory_capture() {
            let mut probe = self.board;
            probe.set(from_index, None);
            probe.set(to_index, Some(piece));
            let this_move_captures = probe.move_captures_something(to_index, player, piece.kind(), self.rules);
            if !this_move_captures && self.board.has_available_capture(player, self.rules) {
                return Err(CrownfallError::CaptureRequired(player));
            }
        }
        let mut scratch = MoveScratch::new();
        let ghost start = self.board@;
        proof {
            assert(0u32 == spec_hash_of(start) ^ spec_hash_of(start)) by {
                let h = spec_hash_of(start);
                assert(0u32 == h ^ h) by (bit_vector);
            }
        }
        self.write_cell(from_index, None, &mut scratch, Ghost(start));
        self.write_cell(to_index, Some(piece), &mut scratch, Ghost(start));
        // Losing one's own Crown comes first and pre-empts everything else.
        if self.board.check_own_crown_trap(to_index, player, self.rules) {
            self.write_cell(to_index, None, &mut scratch, Ghost(start));
            self.state = CrownfallGameState::Victory(player.opposite(), WinReason::CrownCaptured);
            return Ok(Some(CrownfallTurnResult::Victory { player: player.opposite(), surrounded_crown: to }));
        }
        if self.rules.ruleset.all_captures_processed() {
            Ok(self.apply_move_all_captures_processed(player, from, to, piece, &mut scratch, Ghost(g)))
        } else {
            Ok(self.apply_move_sequential(player, from, to, piece, &mut scratch, Ghost(g)))
        }
    }

    fn apply_knight_removal(&mut self, player: CrownfallPlayerKind, at: CrownfallBoardCell) -> (r: Result<Option<CrownfallTurnResult>, CrownfallError>)
        requires
            old(self).spec_ready(),
        ensures
            final(self).spec_applied(old(self).snap(), r, spec_apply_knight_removal(old(self).snap(), player, at.index as int)),
            final(self).board.spec_variant() == old(self).board.spec_variant(),
    {
        proof {
            self.board.lemma_len();
        }
        let index = at.to_index();
        if index >= cell_count(self.rules.board) {
            return Err(CrownfallError::EmptyKnightRemoval(player, at));
        }
        match self.board.get(index) {
            None => Err(CrownfallError::EmptyKnightRemoval(player, at)),
            Some(cell) => {
                if cell.player() == player {
                    let mut scratch = MoveScratch::new();
                    let ghost start = self.board@;
                    proof {
                        let h = spec_hash_of(start);
                        assert(0u32 == h ^ h) by (bit_vector);
                    }
                    self.write_cell(index, None, &mut scratch, Ghost(start));
                    self.state = self.resolve_continuation(player.opposite(), true, &scratch, Ghost(start));
                    Ok(None)
                } else {
                    Err(CrownfallError::EnemyKnightRemoval(player, at))
                }
            },
        }
    }

    fn apply_action_checked(&mut self, action: CrownfallPlayerAction, validate_mandatory_capture: bool) -> (r: Result<Option<CrownfallTurnResult>, CrownfallError>)
        requires
            old(self).spec_playable(),
        ensures
            final(self).spec_applied(old(self).snap(), r, spec_apply_action(old(self).snap(), action, validate_mandatory_capture)),
            final(self).board.spec_variant() == old(self).board.spec_variant(),
    {
        match &self.state {
            CrownfallGameState::Playing(play_state) => {
                if !matches!(action, CrownfallPlayerAction::Surrender { .. }) && play_state.player() != action.player() {
                    return Err(CrownfallError::NotYourTurn(action.player()));
                }
            },
            CrownfallGameState::Victory(_, _) => {
                return Err(CrownfallError::GameOver(action.player()));
            },
            CrownfallGameState::Draw(_) => {
                return Err(CrownfallError::GameOver(action.player()));
            },
        }
        match action {
            CrownfallPlayerAction::Move { player, from, to } => self.apply_move(player, from, to, validate_mandatory_capture),
            CrownfallPlayerAction::KnightRemoval { player, at } => self.apply_knight_removal(player, at),
            CrownfallPlayerAction::Surrender { player } => {
                self.state = CrownfallGameState::Victory(player.opposite(), WinReason::Surrender);
                Ok(None)
            },
        }
    }

    /// Applies `action` to this game in place. On `Err` the game is left
    /// untouched: every validation runs before the first change.
    pub fn apply_action(&mut self, action: CrownfallPlayerAction) -> (r: Result<Option<CrownfallTurnResult>, CrownfallError>)
        requires
            old(self).spec_playable(),
        ensures
            final(self).spec_applied(old(self).snap(), r, spec_apply_action(old(self).snap(), action, true)),
            final(self).board.spec_variant() == old(self).board.spec_variant(),
    {
        self.apply_action_checked(action, true)
    }

    /// `apply_action` without the mandatory-capture check, for callers
    /// (the AI's search) that only ever offer moves already filtered by it.
    pub fn apply_action_quiet(&mut self, action: CrownfallPlayerAction) -> (r: Result<Option<CrownfallTurnResult>, CrownfallError>)
        requires
            old(self).spec_playable(),
        ensures
            final(self).spec_applied(old(self).snap(), r, spec_apply_action(old(self).snap(), action, false)),
            final(self).board.spec_variant() == old(self).board.spec_variant(),
    {
        self.apply_action_checked(action, false)
    }

    /// Consuming form of `apply_action`: the updated game and the turn
    /// result, or the error.
    pub fn handle_player_action(self, action: CrownfallPlayerAction) -> (r: Result<(CrownfallGame, Option<CrownfallTurnResult>), CrownfallError>)
        requires
            self.spec_playable(),
        ensures
            match spec_apply_action(self.snap(), action, true) {
                Ok(o) => r is Ok && ({
                    let (g, res) = r.unwrap();
                    &&& res == o.result
                    &&& g.board@ == o.cells
                    &&& g.state == o.state
                    &&& g.history@ == o.history
                    &&& g.moves_since_capture == o.msc
                    &&& g.rules == self.rules
                    &&& g.board.spec_variant() == self.board.spec_variant()
                }),
                Err(e) => r == Err::<(CrownfallGame, Option<CrownfallTurnResult>), CrownfallError>(e),
            },
    {
        let mut game = self;
        let result = game.apply_action(action);
        match result {
            Ok(res) => Ok((game, res)),
            Err(e) => Err(e),
        }
    }
}

} // verus!
