//! The rules of the 7x7 game as spec functions.
//!
//! Movement: the Crown and Spies step orthogonally; a Knight steps into
//! its forward arc (forward-left, forward, forward-right). Captures are
//! pincers of two pieces on orthogonally adjacent sides of the target: two
//! Spies (a Spy Capture), or two Knights or a Knight and the Crown (a
//! Knight Capture, which costs the attacker a Knight when it takes one).
use vstd::prelude::*;
use crate::engine::captures::spec_keep_not_in;
use crate::engine::tables::{spec_knight_arcs, spec_ortho};
use crate::engine::types::{CrownfallBoardVariant, CrownfallPlayerKind};
use crate::classic::errors::GameError;
use crate::classic::hash::spec_position_hash;
use crate::classic::types::{
    spec_lx, Cell, DrawReason, GameState, Piece, PieceKind, PlayState, PlayerAction, PlayerKind,
    TurnResult,
};

verus! {

/// Positions recurring this often make a draw.
pub const REPETITION_LIMIT: usize = 3;

/// Turns without a capture before the no-progress draw.
pub const NO_PROGRESS_LIMIT: u16 = 40;

/// The absolute turn-count safety net.
pub const TOTAL_TURN_LIMIT: u16 = 200;

/// The kind of pincer a pair of attackers forms.
#[derive(Clone, Copy, Debug, Eq, PartialEq, Structural)]
pub enum CaptureKind {
    Spy,
    Knight,
}

/// Two attackers and the capture they form.
#[derive(Clone, Copy, Debug, Eq, PartialEq, Structural)]
pub struct Pair {
    pub first: usize,
    pub second: usize,
    pub kind: CaptureKind,
}

pub open spec fn spec_engine_player(p: PlayerKind) -> CrownfallPlayerKind {
    match p {
        PlayerKind::White => CrownfallPlayerKind::White,
        PlayerKind::Black => CrownfallPlayerKind::Black,
    }
}

/// Orthogonal neighbours, in up/down/left/right order.
pub open spec fn spec_neighbours(i: int) -> Seq<int> {
    spec_ortho(CrownfallBoardVariant::Normal, i)
}

/// The forward arc of `i` for `p`: forward-left, forward, forward-right.
pub open spec fn spec_arc(i: int, p: PlayerKind) -> Seq<int> {
    spec_knight_arcs(CrownfallBoardVariant::Normal, spec_engine_player(p), i)
}

pub open spec fn spec_owned(c: Option<Piece>, p: PlayerKind) -> bool {
    c matches Some(pc) && pc.player == p
}

/// Where the piece at `i` may step, ignoring occupancy.
pub open spec fn spec_candidates(cells: Seq<Option<Piece>>, i: int) -> Seq<int> {
    match cells[i] {
        Some(pc) => if pc.kind == PieceKind::Knight { spec_arc(i, pc.player) } else { spec_neighbours(i) },
        None => Seq::empty(),
    }
}

/// The empty cells among the first `n` of `s`, as cells.
pub open spec fn spec_keep_empty(cells: Seq<Option<Piece>>, s: Seq<int>, n: int) -> Seq<Cell>
    decreases n,
{
    if n <= 0 {
        Seq::empty()
    } else {
        let prev = spec_keep_empty(cells, s, n - 1);
        if cells[s[n - 1]].is_none() { prev.push(Cell { index: s[n - 1] as usize }) } else { prev }
    }
}

/// Legal destinations of the piece at `i`.
pub open spec fn spec_destinations(cells: Seq<Option<Piece>>, i: int) -> Seq<Cell> {
    let c = spec_candidates(cells, i);
    spec_keep_empty(cells, c, c.len() as int)
}

/// The cells among the first `n` of `s` that hold a piece of `p`.
pub open spec fn spec_keep_owned(cells: Seq<Option<Piece>>, s: Seq<int>, p: PlayerKind, n: int) -> Seq<int>
    decreases n,
{
    if n <= 0 {
        Seq::empty()
    } else {
        let prev = spec_keep_owned(cells, s, p, n - 1);
        if spec_owned(cells[s[n - 1]], p) { prev.push(s[n - 1]) } else { prev }
    }
}

pub open spec fn spec_capture_kind(cells: Seq<Option<Piece>>, a: int, b: int) -> Option<CaptureKind> {
    match (cells[a], cells[b]) {
        (Some(pa), Some(pb)) => match (pa.kind, pb.kind) {
            (PieceKind::Spy, PieceKind::Spy) => Some(CaptureKind::Spy),
            (PieceKind::Knight, PieceKind::Knight) => Some(CaptureKind::Knight),
            (PieceKind::Crown, PieceKind::Knight) => Some(CaptureKind::Knight),
            (PieceKind::Knight, PieceKind::Crown) => Some(CaptureKind::Knight),
            _ => None,
        },
        _ => None,
    }
}

pub open spec fn spec_first_partner(cells: Seq<Option<Piece>>, att: Seq<int>, i: int, j: int) -> Option<Pair>
    decreases att.len() - j,
{
    if j < 0 || j >= att.len() {
        None
    } else {
        match spec_capture_kind(cells, att[i], att[j]) {
            Some(k) => Some(Pair { first: att[i] as usize, second: att[j] as usize, kind: k }),
            None => spec_first_partner(cells, att, i, j + 1),
        }
    }
}

pub open spec fn spec_first_pair_from(cells: Seq<Option<Piece>>, att: Seq<int>, i: int) -> Option<Pair>
    decreases att.len() - i,
{
    if i < 0 || i >= att.len() {
        None
    } else {
        match spec_first_partner(cells, att, i, i + 1) {
            Some(p) => Some(p),
            None => spec_first_pair_from(cells, att, i + 1),
        }
    }
}

/// The first pair (in list order) of attackers that forms a capture.
pub open spec fn spec_first_pair(cells: Seq<Option<Piece>>, att: Seq<int>) -> Option<Pair> {
    spec_first_pair_from(cells, att, 0)
}

/// A capturing pincer against `target` by `attacker`'s pieces on its
/// orthogonal sides.
pub open spec fn spec_find_pair(cells: Seq<Option<Piece>>, target: int, attacker: PlayerKind) -> Option<Pair> {
    let o = spec_neighbours(target);
    spec_first_pair(cells, spec_keep_owned(cells, o, attacker, o.len() as int))
}

/// `cell` is one of the two diagonal cells of `attacker`'s reach toward
/// `target`.
pub open spec fn spec_diagonally_forward(target: int, cell: int, attacker: PlayerKind) -> bool {
    spec_lx(cell) != spec_lx(target) && spec_arc(target, attacker.spec_opposite()).contains(cell)
}

/// Attackers of a Crown: its orthogonal neighbours, plus the Knight that
/// just moved to `moved` when it landed diagonally ahead of the Crown.
pub open spec fn spec_crown_attackers(cells: Seq<Option<Piece>>, target: int, attacker: PlayerKind, moved: int) -> Seq<int> {
    let o = spec_neighbours(target);
    let base = spec_keep_owned(cells, o, attacker, o.len() as int);
    if spec_diagonally_forward(target, moved, attacker) && (cells[moved] matches Some(pc) && pc.player == attacker && pc.kind == PieceKind::Knight) {
        base.push(moved)
    } else {
        base
    }
}

pub open spec fn spec_find_crown_pair(cells: Seq<Option<Piece>>, target: int, attacker: PlayerKind, moved: int) -> Option<Pair> {
    spec_first_pair(cells, spec_crown_attackers(cells, target, attacker, moved))
}

/// The mover's piece at `at` (not its Crown) stands in an enemy Spy pincer.
pub open spec fn spec_self_spy_trap(cells: Seq<Option<Piece>>, at: int, mover: PlayerKind) -> bool {
    match cells[at] {
        Some(pc) => pc.player == mover && pc.kind != PieceKind::Crown && (spec_find_pair(cells, at, mover.spec_opposite()) matches Some(p) && p.kind == CaptureKind::Spy),
        None => false,
    }
}

/// The mover's Crown at `at` walked into an enemy pincer.
pub open spec fn spec_own_crown_trap(cells: Seq<Option<Piece>>, at: int, mover: PlayerKind) -> bool {
    match cells[at] {
        Some(pc) => pc.player == mover && pc.kind == PieceKind::Crown && spec_find_crown_pair(cells, at, mover.spec_opposite(), at) is Some,
        None => false,
    }
}

/// Cells the piece just moved to `to` may threaten: its neighbours, plus a
/// Knight's forward arc.
pub open spec fn spec_scan(cells: Seq<Option<Piece>>, to: int, mover: PlayerKind) -> Seq<int> {
    let o = spec_neighbours(to);
    if cells[to] matches Some(pc) && pc.kind == PieceKind::Knight {
        let a = spec_arc(to, mover);
        o + spec_keep_not_in(a, o, a.len() as int)
    } else {
        o
    }
}

pub open spec fn spec_crown_capture_from(cells: Seq<Option<Piece>>, scan: Seq<int>, k: int, to: int, attacker: PlayerKind) -> Option<int>
    decreases scan.len() - k,
{
    if k < 0 || k >= scan.len() {
        None
    } else {
        let c = scan[k];
        if (cells[c] matches Some(pc) && pc.player != attacker && pc.kind == PieceKind::Crown) && spec_find_crown_pair(cells, c, attacker, to) is Some {
            Some(c)
        } else {
            spec_crown_capture_from(cells, scan, k + 1, to, attacker)
        }
    }
}

/// The enemy Crown the move to `to` captures, if any.
pub open spec fn spec_crown_capture(cells: Seq<Option<Piece>>, to: int, attacker: PlayerKind) -> Option<int> {
    spec_crown_capture_from(cells, spec_scan(cells, to, attacker), 0, to, attacker)
}

/// Ordinary captures among the first `n` scanned cells: each enemy
/// non-Crown piece with an attacking pair.
pub open spec fn spec_captures_upto(cells: Seq<Option<Piece>>, scan: Seq<int>, n: int, attacker: PlayerKind) -> Seq<(int, Pair)>
    decreases n,
{
    if n <= 0 {
        Seq::empty()
    } else {
        let prev = spec_captures_upto(cells, scan, n - 1, attacker);
        let c = scan[n - 1];
        if cells[c] matches Some(pc) && pc.player != attacker && pc.kind != PieceKind::Crown {
            match spec_find_pair(cells, c, attacker) {
                Some(p) => prev.push((c, p)),
                None => prev,
            }
        } else {
            prev
        }
    }
}

pub open spec fn spec_piece_captures(cells: Seq<Option<Piece>>, to: int, attacker: PlayerKind) -> Seq<(int, Pair)> {
    let s = spec_scan(cells, to, attacker);
    spec_captures_upto(cells, s, s.len() as int, attacker)
}

pub open spec fn spec_other(p: Pair, moved: int) -> int {
    if p.first == moved { p.second as int } else { p.first as int }
}

/// Applies the first `n` captures in order; a Knight Capture that takes a
/// Knight also costs the attacker a Knight (the mover, or its partner when
/// the Crown moved).
pub open spec fn spec_apply_captures(cells: Seq<Option<Piece>>, caps: Seq<(int, Pair)>, n: int, to: int, mover: PieceKind) -> Seq<Option<Piece>>
    decreases n,
{
    if n <= 0 {
        cells
    } else {
        let b = spec_apply_captures(cells, caps, n - 1, to, mover);
        let (target, pair) = caps[n - 1];
        let was_knight = b[target] matches Some(pc) && pc.kind == PieceKind::Knight;
        let b1 = b.update(target, None);
        if pair.kind == CaptureKind::Knight && was_knight {
            let lost = if mover == PieceKind::Crown { spec_other(pair, to) } else { to };
            b1.update(lost, None)
        } else {
            b1
        }
    }
}

pub open spec fn spec_count(cells: Seq<Option<Piece>>, player: PlayerKind, kind: PieceKind, n: int) -> int
    decreases n,
{
    if n <= 0 {
        0
    } else {
        spec_count(cells, player, kind, n - 1) + if cells[n - 1] matches Some(pc) && pc.player == player && pc.kind == kind { 1int } else { 0int }
    }
}

pub open spec fn spec_piece_count(cells: Seq<Option<Piece>>, player: PlayerKind, kind: PieceKind) -> int {
    spec_count(cells, player, kind, cells.len() as int)
}

/// One or fewer Knights and one or fewer Spies.
pub open spec fn spec_attrition_defeated(cells: Seq<Option<Piece>>, player: PlayerKind) -> bool {
    spec_piece_count(cells, player, PieceKind::Knight) <= 1 && spec_piece_count(cells, player, PieceKind::Spy) <= 1
}

/// One side has a single Knight left and the other none.
pub open spec fn spec_mutual_exhaustion(cells: Seq<Option<Piece>>) -> bool {
    let w = spec_piece_count(cells, PlayerKind::White, PieceKind::Knight);
    let b = spec_piece_count(cells, PlayerKind::Black, PieceKind::Knight);
    (w == 0 && b == 1) || (w == 1 && b == 0)
}

/// How many of the first `n` entries of `h` equal `key`.
pub open spec fn spec_count_key(h: Seq<u64>, key: u64, n: int) -> int
    decreases n,
{
    if n <= 0 {
        0
    } else {
        spec_count_key(h, key, n - 1) + if h[n - 1] == key { 1int } else { 0int }
    }
}

/// A game as plain values.
pub struct Snap {
    pub cells: Seq<Option<Piece>>,
    pub state: GameState,
    pub history: Seq<u64>,
    pub msc: u16,
}

/// What a successful action leaves.
pub struct Outcome {
    pub cells: Seq<Option<Piece>>,
    pub state: GameState,
    pub history: Seq<u64>,
    pub msc: u16,
    pub result: Option<TurnResult>,
}

/// Records the position reached and decides whether play goes on: a draw
/// on threefold repetition (over the whole history), on the no-progress
/// limit or on the turn limit; otherwise `next` is to move.
pub open spec fn spec_continue(end: Seq<Option<Piece>>, next: PlayerKind, history: Seq<u64>, msc: u16, captured: bool) -> (GameState, Seq<u64>, u16) {
    let msc2: u16 = if captured { 0 } else { (msc + 1) as u16 };
    let key = spec_position_hash(end, next);
    let h2 = history.push(key);
    let repeats = spec_count_key(h2, key, h2.len() as int);
    let turns = (h2.len() - 1) as u16;
    let state = if repeats >= REPETITION_LIMIT {
        GameState::Draw(DrawReason::Repetition)
    } else if msc2 >= NO_PROGRESS_LIMIT {
        GameState::Draw(DrawReason::NoProgress)
    } else if turns >= TOTAL_TURN_LIMIT {
        GameState::Draw(DrawReason::TurnLimit)
    } else {
        GameState::Playing(PlayState::WaitingForInput { player: next })
    };
    (state, h2, msc2)
}

pub open spec fn spec_moved(cells: Seq<Option<Piece>>, from: int, to: int, piece: Piece) -> Seq<Option<Piece>> {
    cells.update(from, None).update(to, Some(piece))
}

/// Moving `from -> to` as `player`.
pub open spec fn spec_handle_move(g: Snap, player: PlayerKind, from: Cell, to: Cell) -> Result<Outcome, GameError> {
    let f = from.index as int;
    let t = to.index as int;
    match g.cells[f] {
        None => Err(GameError::EmptyMove(player, from)),
        Some(piece) => if piece.player != player {
            Err(GameError::EnemyMove(player, from))
        } else if !spec_destinations(g.cells, f).contains(to) {
            Err(GameError::InvalidDestination(player, from, to))
        } else {
            let b = spec_moved(g.cells, f, t, piece);
            let opp = player.spec_opposite();
            if spec_own_crown_trap(b, t, player) {
                Ok(Outcome {
                    cells: b.update(t, None),
                    state: GameState::Victory(opp),
                    history: g.history,
                    msc: g.msc,
                    result: Some(TurnResult::Victory { player, surrounded_crown: to }),
                })
            } else if spec_crown_capture(b, t, player) is Some {
                let c = spec_crown_capture(b, t, player).unwrap();
                Ok(Outcome {
                    cells: b.update(c, None),
                    state: GameState::Victory(player),
                    history: g.history,
                    msc: g.msc,
                    result: Some(TurnResult::Victory { player, surrounded_crown: Cell { index: c as usize } }),
                })
            } else if spec_self_spy_trap(b, t, player) {
                let end = b.update(t, None);
                let pair = spec_find_pair(b, t, opp).unwrap();
                let (state, h, m) = if spec_attrition_defeated(end, player) {
                    (GameState::Victory(opp), g.history, g.msc)
                } else {
                    spec_continue(end, opp, g.history, g.msc, true)
                };
                Ok(Outcome {
                    cells: end,
                    state,
                    history: h,
                    msc: m,
                    result: Some(TurnResult::Capture { player, last_move_from: from, last_move_to: to, removed: to, second_attacker: Cell { index: pair.second } }),
                })
            } else {
                let caps = spec_piece_captures(b, t, player);
                if caps.len() > 0 {
                    let end = spec_apply_captures(b, caps, caps.len() as int, t, piece.kind);
                    let (target, pair) = caps[0];
                    let (state, h, m) = if spec_mutual_exhaustion(end) {
                        (GameState::Draw(DrawReason::MutualKnightExhaustion), g.history, g.msc)
                    } else if spec_attrition_defeated(end, opp) {
                        (GameState::Victory(player), g.history, g.msc)
                    } else {
                        spec_continue(end, opp, g.history, g.msc, true)
                    };
                    Ok(Outcome {
                        cells: end,
                        state,
                        history: h,
                        msc: m,
                        result: Some(TurnResult::Capture {
                            player,
                            last_move_from: from,
                            last_move_to: to,
                            removed: Cell { index: target as usize },
                            second_attacker: Cell { index: spec_other(pair, t) as usize },
                        }),
                    })
                } else {
                    let (state, h, m) = spec_continue(b, opp, g.history, g.msc, false);
                    Ok(Outcome { cells: b, state, history: h, msc: m, result: Some(TurnResult::PieceMove { player, from, to }) })
                }
            }
        },
    }
}

/// Removing one's own piece at `at`.
pub open spec fn spec_handle_knight_removal(g: Snap, player: PlayerKind, at: Cell) -> Result<Outcome, GameError> {
    match g.cells[at.index as int] {
        None => Err(GameError::EmptyKnightRemoval(player, at)),
        Some(pc) => if pc.player == player {
            let end = g.cells.update(at.index as int, None);
            let (state, h, m) = spec_continue(end, player.spec_opposite(), g.history, g.msc, true);
            Ok(Outcome { cells: end, state, history: h, msc: m, result: None })
        } else {
            Err(GameError::EnemyKnightRemoval(player, at))
        },
    }
}

/// Applying `action` to the game `g`. A surrender is accepted from either
/// player while the game is in play; moves and removals only from the
/// player to move.
pub open spec fn spec_handle_action(g: Snap, action: PlayerAction) -> Result<Outcome, GameError> {
    let who = action.spec_player();
    match g.state {
        GameState::Playing(ps) => match action {
            PlayerAction::Surrender { player } => Ok(Outcome {
                cells: g.cells,
                state: GameState::Victory(player.spec_opposite()),
                history: g.history,
                msc: g.msc,
                result: None,
            }),
            _ => if ps.spec_player() != who {
                Err(GameError::NotYourTurn(who))
            } else {
                match action {
                    PlayerAction::Move { player, from, to } => spec_handle_move(g, player, from, to),
                    PlayerAction::KnightRemoval { player, at } => spec_handle_knight_removal(g, player, at),
                    PlayerAction::Surrender { player } => Err(GameError::NotYourTurn(who)),
                }
            },
        },
        _ => Err(GameError::GameOver(who)),
    }
}

/// The cells an action reads are on the board.
pub open spec fn spec_action_in_bounds(action: PlayerAction) -> bool {
    match action {
        PlayerAction::Move { from, .. } => from.index < 49,
        PlayerAction::KnightRemoval { at, .. } => at.index < 49,
        PlayerAction::Surrender { .. } => true,
    }
}

} // verus!
