//! The rules of play as spec functions: what applying an action does to a
//! game. `play` implements these and proves it.
use vstd::prelude::*;
use crate::engine::captures::{
    spec_check_archer_capture, spec_check_crown_capture, spec_check_own_crown_trap,
    spec_check_piece_captures, spec_check_self_spy_trap, spec_find_attacking_pair,
    spec_has_available_capture, spec_has_mass_knight_arc, spec_move_candidates,
    spec_move_captures_something, spec_moved, ArcherCapture, AttackPair, CaptureKind,
    PieceCapture,
};
use crate::engine::errors::CrownfallError;
use crate::engine::hash::{spec_cells_hash, spec_position_hash, spec_side_key};
use crate::engine::types::{
    spec_cell_count, CrownfallBoardCell, CrownfallBoardVariant, CrownfallGameState,
    CrownfallPiece, CrownfallPieceKind, CrownfallPlayState, CrownfallPlayerAction,
    CrownfallPlayerKind, CrownfallRules, CrownfallRuleset, CrownfallTurnResult, DrawReason,
    WinReason,
};

verus! {

/// Number of occurrences of a position that makes a draw.
pub const REPETITION_LIMIT: u32 = 3;

/// A game as plain values: the board's cells, the state, the rules, the
/// position history and the no-progress counter.
pub struct Snap {
    pub cells: Seq<Option<CrownfallPiece>>,
    pub state: CrownfallGameState,
    pub rules: CrownfallRules,
    pub history: Seq<u32>,
    pub msc: u16,
}

/// What a successful action leaves behind.
pub struct Outcome {
    pub cells: Seq<Option<CrownfallPiece>>,
    pub state: CrownfallGameState,
    pub history: Seq<u32>,
    pub msc: u16,
    pub result: Option<CrownfallTurnResult>,
}

pub open spec fn spec_cell(i: int) -> CrownfallBoardCell {
    CrownfallBoardCell { index: i as u8 }
}

/// How many pieces of `kind` owned by `player` the first `n` cells hold.
pub open spec fn spec_count(cells: Seq<Option<CrownfallPiece>>, kind: CrownfallPieceKind, player: CrownfallPlayerKind, n: int) -> int
    decreases n,
{
    if n <= 0 {
        0
    } else {
        spec_count(cells, kind, player, n - 1) + match cells[n - 1] {
            Some(p) => if p.spec_kind() == kind && p.spec_player() == player { 1int } else { 0int },
            None => 0int,
        }
    }
}

pub open spec fn spec_piece_count(cells: Seq<Option<CrownfallPiece>>, kind: CrownfallPieceKind, player: CrownfallPlayerKind) -> int {
    spec_count(cells, kind, player, cells.len() as int)
}

/// One or fewer Knights and one or fewer Spies left.
pub open spec fn spec_attrition_defeated(cells: Seq<Option<CrownfallPiece>>, player: CrownfallPlayerKind) -> bool {
    spec_piece_count(cells, CrownfallPieceKind::Knight, player) <= 1
        && spec_piece_count(cells, CrownfallPieceKind::Spy, player) <= 1
}

/// Among the newest `n` entries of `h`, the ones at an even distance from
/// the newest that equal `key`.
pub open spec fn spec_count_repeats(h: Seq<u32>, key: u32, n: int) -> int
    decreases n,
{
    if n <= 0 {
        0
    } else {
        spec_count_repeats(h, key, n - 1) + if (n - 1) % 2 == 0 && h[h.len() - 1 - (n - 1)] == key {
            1int
        } else {
            0int
        }
    }
}

/// The hash recorded for the position after an action: derived from the
/// previous entry by the change in board contents and the side-to-move
/// flip, or computed in full when there is no previous entry.
pub open spec fn spec_next_key(start: Seq<Option<CrownfallPiece>>, end: Seq<Option<CrownfallPiece>>, history: Seq<u32>, next: CrownfallPlayerKind) -> u32 {
    if history.len() > 0 {
        history.last() ^ (spec_cells_hash(start, start.len() as int) ^ spec_cells_hash(end, end.len() as int))
            ^ spec_side_key()
    } else {
        spec_position_hash(end, next)
    }
}

/// Records the position just reached and decides whether the game goes on:
/// a draw on threefold repetition (within the window since the last
/// capture), on the no-progress limit, or on the turn limit; otherwise
/// `next` is to move.
pub open spec fn spec_continue(start: Seq<Option<CrownfallPiece>>, end: Seq<Option<CrownfallPiece>>, board: CrownfallBoardVariant, history: Seq<u32>, msc: u16, next: CrownfallPlayerKind, captured: bool) -> (CrownfallGameState, Seq<u32>, u16) {
    let msc2: u16 = if captured { 0 } else { (msc + 1) as u16 };
    let key = spec_next_key(start, end, history, next);
    let h2 = history.push(key);
    let window = if msc2 + 1 < h2.len() { msc2 + 1 } else { h2.len() as int };
    let repeats = spec_count_repeats(h2, key, window);
    let turns = (h2.len() - 1) as u16;
    let state = if repeats >= REPETITION_LIMIT {
        CrownfallGameState::Draw(DrawReason::Repetition)
    } else if msc2 >= board.spec_no_progress_limit() {
        CrownfallGameState::Draw(DrawReason::NoProgress)
    } else if turns >= board.spec_total_turn_limit() {
        CrownfallGameState::Draw(DrawReason::TurnLimit)
    } else {
        CrownfallGameState::Playing(CrownfallPlayState::WaitingForInput { player: next })
    };
    (state, h2, msc2)
}

/// End-of-turn resolution after pieces were removed: attrition of the
/// opponent first (never under the Archers ruleset), else the ordinary
/// continuation.
pub open spec fn spec_after_removal(start: Seq<Option<CrownfallPiece>>, end: Seq<Option<CrownfallPiece>>, rules: CrownfallRules, history: Seq<u32>, msc: u16, player: CrownfallPlayerKind) -> (CrownfallGameState, Seq<u32>, u16) {
    if rules.ruleset != CrownfallRuleset::Archers && spec_attrition_defeated(end, player.spec_opposite()) {
        (CrownfallGameState::Victory(player, WinReason::Attrition), history, msc)
    } else {
        spec_continue(start, end, rules.board, history, msc, player.spec_opposite(), true)
    }
}

pub open spec fn spec_other_attacker(pair: AttackPair, moved: int) -> int {
    if pair.first == moved { pair.second as int } else { pair.first as int }
}

/// Removes the first `n` captured pieces in order, sacrificing an attacking
/// Knight when a Knight Capture took a Knight (the moved Knight, or the
/// partner when a Crown moved), unless the mass-capture waiver applies.
pub open spec fn spec_apply_piece_captures(cells: Seq<Option<CrownfallPiece>>, v: CrownfallBoardVariant, caps: Seq<PieceCapture>, n: int, player: CrownfallPlayerKind, to: int, mover: CrownfallPieceKind, rules: CrownfallRules) -> Seq<Option<CrownfallPiece>>
    decreases n,
{
    if n <= 0 {
        cells
    } else {
        let b = spec_apply_piece_captures(cells, v, caps, n - 1, player, to, mover, rules);
        let cap = caps[n - 1];
        let target = cap.target as int;
        let target_was_knight = match b[target] {
            Some(p) => p.spec_kind() == CrownfallPieceKind::Knight,
            None => false,
        };
        let b1 = b.update(target, None);
        let second = spec_other_attacker(cap.pair, to);
        let waived = rules.ruleset.spec_knight_mass_capture() && spec_has_mass_knight_arc(b1, v, target, player, rules);
        if cap.pair.kind == CaptureKind::Knight && target_was_knight && !waived {
            let lost = if mover == CrownfallPieceKind::Crown { second } else { to };
            b1.update(lost, None)
        } else {
            b1
        }
    }
}

/// Removes the first `n` Archer-shot targets.
pub open spec fn spec_apply_archer_captures(cells: Seq<Option<CrownfallPiece>>, acs: Seq<ArcherCapture>, n: int) -> Seq<Option<CrownfallPiece>>
    decreases n,
{
    if n <= 0 {
        cells
    } else {
        spec_apply_archer_captures(cells, acs, n - 1).update(acs[n - 1].target as int, None)
    }
}

pub open spec fn spec_capture_result(player: CrownfallPlayerKind, from: int, to: int, cap: PieceCapture) -> CrownfallTurnResult {
    CrownfallTurnResult::Capture {
        player,
        last_move_from: spec_cell(from),
        last_move_to: spec_cell(to),
        removed: spec_cell(cap.target as int),
        second_attacker: spec_cell(spec_other_attacker(cap.pair, to)),
    }
}

pub open spec fn spec_archer_result(player: CrownfallPlayerKind, from: int, to: int, ac: ArcherCapture) -> CrownfallTurnResult {
    CrownfallTurnResult::Capture {
        player,
        last_move_from: spec_cell(from),
        last_move_to: spec_cell(to),
        removed: spec_cell(ac.target as int),
        second_attacker: spec_cell(ac.ally as int),
    }
}

pub open spec fn spec_trap_result(player: CrownfallPlayerKind, from: int, to: int, pair: Option<AttackPair>) -> CrownfallTurnResult {
    CrownfallTurnResult::Capture {
        player,
        last_move_from: spec_cell(from),
        last_move_to: spec_cell(to),
        removed: spec_cell(to),
        second_attacker: spec_cell(pair.unwrap().second as int),
    }
}

/// Standard resolution of a move already made on `s1` (the board after
/// the step): the first of crown capture, a Spy trap on the mover,
/// ordinary captures and an Archer shot that applies wins.
pub open spec fn spec_resolve_sequential(g: Snap, s1: Seq<Option<CrownfallPiece>>, player: CrownfallPlayerKind, from: int, to: int, piece: CrownfallPiece) -> Outcome {
    let v = g.rules.board;
    let rules = g.rules;
    match spec_check_crown_capture(s1, v, to, player, rules) {
        Some(c) => Outcome {
            cells: s1.update(c, None),
            state: CrownfallGameState::Victory(player, WinReason::CrownCaptured),
            history: g.history,
            msc: g.msc,
            result: Some(CrownfallTurnResult::Victory { player, surrounded_crown: spec_cell(c) }),
        },
        None => if spec_check_self_spy_trap(s1, v, to, player, rules) {
            let end = s1.update(to, None);
            let (state, h, m) = spec_after_removal(g.cells, end, rules, g.history, g.msc, player);
            Outcome {
                cells: end,
                state,
                history: h,
                msc: m,
                result: Some(spec_trap_result(player, from, to, spec_find_attacking_pair(s1, v, to, player.spec_opposite(), rules))),
            }
        } else {
            let pcs = spec_check_piece_captures(s1, v, to, player, rules);
            let acs = if piece.spec_kind() == CrownfallPieceKind::Archer {
                spec_check_archer_capture(s1, v, to, player)
            } else {
                Seq::empty()
            };
            if pcs.len() > 0 {
                let end = spec_apply_piece_captures(s1, v, pcs, pcs.len() as int, player, to, piece.spec_kind(), rules);
                let (state, h, m) = spec_after_removal(g.cells, end, rules, g.history, g.msc, player);
                Outcome { cells: end, state, history: h, msc: m, result: Some(spec_capture_result(player, from, to, pcs[0])) }
            } else if acs.len() > 0 {
                let end = spec_apply_archer_captures(s1, acs, acs.len() as int);
                let (state, h, m) = spec_after_removal(g.cells, end, rules, g.history, g.msc, player);
                Outcome { cells: end, state, history: h, msc: m, result: Some(spec_archer_result(player, from, to, acs[0])) }
            } else {
                let (state, h, m) = spec_continue(g.cells, s1, v, g.history, g.msc, player.spec_opposite(), false);
                Outcome {
                    cells: s1,
                    state,
                    history: h,
                    msc: m,
                    result: Some(CrownfallTurnResult::PieceMove { player, from: spec_cell(from), to: spec_cell(to) }),
                }
            }
        },
    }
}

pub open spec fn spec_first_of(a: Option<CrownfallTurnResult>, b: CrownfallTurnResult) -> Option<CrownfallTurnResult> {
    match a {
        Some(x) => Some(x),
        None => Some(b),
    }
}

/// All-captures-processed resolution: every check is evaluated on the
/// board right after the step, and every removal found is applied.
pub open spec fn spec_resolve_all(g: Snap, s1: Seq<Option<CrownfallPiece>>, player: CrownfallPlayerKind, from: int, to: int, piece: CrownfallPiece) -> Outcome {
    let v = g.rules.board;
    let rules = g.rules;
    let crown = spec_check_crown_capture(s1, v, to, player, rules);
    let trapped = spec_check_self_spy_trap(s1, v, to, player, rules);
    let pcs = spec_check_piece_captures(s1, v, to, player, rules);
    let acs = if piece.spec_kind() == CrownfallPieceKind::Archer {
        spec_check_archer_capture(s1, v, to, player)
    } else {
        Seq::empty()
    };
    let b1 = match crown { Some(c) => s1.update(c, None), None => s1 };
    let r1: Option<CrownfallTurnResult> = match crown {
        Some(c) => Some(CrownfallTurnResult::Victory { player, surrounded_crown: spec_cell(c) }),
        None => None,
    };
    let b2 = if trapped { b1.update(to, None) } else { b1 };
    let r2 = if trapped {
        spec_first_of(r1, spec_trap_result(player, from, to, spec_find_attacking_pair(s1, v, to, player.spec_opposite(), rules)))
    } else {
        r1
    };
    let b3 = if pcs.len() > 0 {
        spec_apply_piece_captures(b2, v, pcs, pcs.len() as int, player, to, piece.spec_kind(), rules)
    } else {
        b2
    };
    let r3 = if pcs.len() > 0 { spec_first_of(r2, spec_capture_result(player, from, to, pcs[0])) } else { r2 };
    let b4 = if acs.len() > 0 { spec_apply_archer_captures(b3, acs, acs.len() as int) } else { b3 };
    let r4 = if acs.len() > 0 { spec_first_of(r3, spec_archer_result(player, from, to, acs[0])) } else { r3 };
    if crown.is_some() {
        Outcome {
            cells: b4,
            state: CrownfallGameState::Victory(player, WinReason::CrownCaptured),
            history: g.history,
            msc: g.msc,
            result: r4,
        }
    } else if trapped || pcs.len() > 0 || acs.len() > 0 {
        let (state, h, m) = spec_after_removal(g.cells, b4, rules, g.history, g.msc, player);
        Outcome { cells: b4, state, history: h, msc: m, result: r4 }
    } else {
        let (state, h, m) = spec_continue(g.cells, s1, v, g.history, g.msc, player.spec_opposite(), false);
        Outcome {
            cells: s1,
            state,
            history: h,
            msc: m,
            result: Some(CrownfallTurnResult::PieceMove { player, from: spec_cell(from), to: spec_cell(to) }),
        }
    }
}

/// Moving `from -> to` as `player`; `validate` enables the
/// mandatory-capture check.
pub open spec fn spec_apply_move(g: Snap, player: CrownfallPlayerKind, from: int, to: int, validate: bool) -> Result<Outcome, CrownfallError> {
    let v = g.rules.board;
    let cc = spec_cell_count(v);
    let fc = spec_cell(from);
    let tc = spec_cell(to);
    if from >= cc {
        Err(CrownfallError::EmptyMove(player, fc))
    } else if to >= cc {
        Err(CrownfallError::InvalidDestination(player, fc, tc))
    } else {
        match g.cells[from] {
            None => Err(CrownfallError::EmptyMove(player, fc)),
            Some(piece) => if piece.spec_player() != player {
                Err(CrownfallError::EnemyMove(player, fc))
            } else if g.cells[to].is_some() || !spec_move_candidates(g.cells, v, from, g.rules).contains(to) {
                Err(CrownfallError::InvalidDestination(player, fc, tc))
            } else {
                let s1 = spec_moved(g.cells, from, to, piece);
                if validate && g.rules.ruleset.spec_mandatory_capture() && !spec_move_captures_something(
                    s1,
                    v,
                    to,
                    player,
                    piece.spec_kind(),
                    g.rules,
                ) && spec_has_available_capture(g.cells, v, player, g.rules) {
                    Err(CrownfallError::CaptureRequired(player))
                } else if spec_check_own_crown_trap(s1, v, to, player, g.rules) {
                    Ok(Outcome {
                        cells: s1.update(to, None),
                        state: CrownfallGameState::Victory(player.spec_opposite(), WinReason::CrownCaptured),
                        history: g.history,
                        msc: g.msc,
                        result: Some(CrownfallTurnResult::Victory { player: player.spec_opposite(), surrounded_crown: tc }),
                    })
                } else if g.rules.ruleset.spec_all_captures_processed() {
                    Ok(spec_resolve_all(g, s1, player, from, to, piece))
                } else {
                    Ok(spec_resolve_sequential(g, s1, player, from, to, piece))
                }
            },
        }
    }
}

/// Removing one's own piece at `at` (the knight-removal action).
pub open spec fn spec_apply_knight_removal(g: Snap, player: CrownfallPlayerKind, at: int) -> Result<Outcome, CrownfallError> {
    let ac = spec_cell(at);
    if at >= spec_cell_count(g.rules.board) {
        Err(CrownfallError::EmptyKnightRemoval(player, ac))
    } else {
        match g.cells[at] {
            None => Err(CrownfallError::EmptyKnightRemoval(player, ac)),
            Some(p) => if p.spec_player() == player {
                let end = g.cells.update(at, None);
                let (state, h, m) = spec_continue(g.cells, end, g.rules.board, g.history, g.msc, player.spec_opposite(), true);
                Ok(Outcome { cells: end, state, history: h, msc: m, result: None })
            } else {
                Err(CrownfallError::EnemyKnightRemoval(player, ac))
            },
        }
    }
}

/// Applying `action` to the game `g`. A surrender is accepted from either
/// player while the game is in play; moves and removals only from the
/// player to move.
pub open spec fn spec_apply_action(g: Snap, action: CrownfallPlayerAction, validate: bool) -> Result<Outcome, CrownfallError> {
    let who = action.spec_player();
    match g.state {
        CrownfallGameState::Playing(ps) => match action {
            CrownfallPlayerAction::Surrender { player } => Ok(Outcome {
                cells: g.cells,
                state: CrownfallGameState::Victory(player.spec_opposite(), WinReason::Surrender),
                history: g.history,
                msc: g.msc,
                result: None,
            }),
            _ => if ps.spec_player() != who {
                Err(CrownfallError::NotYourTurn(who))
            } else {
                match action {
                    CrownfallPlayerAction::Move { player, from, to } => spec_apply_move(g, player, from.index as int, to.index as int, validate),
                    CrownfallPlayerAction::KnightRemoval { player, at } => spec_apply_knight_removal(g, player, at.index as int),
                    CrownfallPlayerAction::Surrender { player } => Err(CrownfallError::NotYourTurn(who)),
                }
            },
        },
        _ => Err(CrownfallError::GameOver(who)),
    }
}

} // verus!
