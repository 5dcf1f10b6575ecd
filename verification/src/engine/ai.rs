//! A negamax game-playing AI for play against the computer.
//!
//! Candidate positions are explored by applying a move to one working copy
//! of the game and rolling it back afterwards: the board from a saved copy,
//! the state and no-progress counter from saved values, and the history by
//! truncating it to its saved length (every action records at most one new
//! position, see `laws::lemma_action_follows`).
use vstd::prelude::*;
use crate::engine::board::CrownfallBoardState;
use crate::engine::eval::{crown_cell, evaluate, spec_crown_cell, spec_evaluate, CrownfallPersonality, EVAL_BOUND};
use crate::engine::hash::{position_hash, spec_position_hash};
use crate::engine::laws::{lemma_action_follows, lemma_move_accepted, spec_history_extends};
use crate::engine::movegen::{collect_moves, spec_allowed_step, spec_collect, spec_move_set, spec_same_moves};
use crate::engine::play::{copy_game, CrownfallGame};
use crate::engine::rules::{spec_apply_action, Snap};
use crate::engine::types::{
    spec_cell_count, CrownfallBoardCell, CrownfallGameState, CrownfallPiece, CrownfallPlayerAction,
    CrownfallPlayerKind, CrownfallRules,
};

verus! {

/// The score of a won position; every evaluation stays far below it.
pub const VICTORY_SCORE: i32 = 30000;

/// A drawn position scores slightly below an even one, so the search
/// prefers an even line that goes on to one that draws. It is smaller than
/// the cheapest piece weight, so no piece is ever given up to dodge a draw.
pub const DRAW_SCORE: i32 = -14;

/// Transposition-table entries.
pub const TT_SIZE: usize = 4096;

pub const TT_EMPTY: u8 = 0;
/// The stored score is the node's value within the window.
pub const TT_EXACT: u8 = 1;
/// The search cut off: the value is at least the stored score.
pub const TT_LOWER: u8 = 2;
/// No move raised alpha: the value is at most the stored score.
pub const TT_UPPER: u8 = 3;

/// Remaining-depth levels that keep killer moves (two each).
pub const KILLER_PLIES: usize = 32;

/// How far either side of the previous iteration's score the next
/// iteration's aspiration window opens.
pub const ASPIRATION_WINDOW: i32 = 40;

/// How many plies the AI searches ahead.
#[derive(Clone, Copy, Debug, PartialEq, Eq, Hash, Structural)]
pub enum CrownfallDifficulty {
    Easy,
    Medium,
    Hard,
    VeryHard,
}

pub open spec fn spec_depth(d: CrownfallDifficulty) -> u8 {
    match d {
        CrownfallDifficulty::Easy => 1,
        CrownfallDifficulty::Medium => 2,
        CrownfallDifficulty::Hard => 3,
        CrownfallDifficulty::VeryHard => 4,
    }
}

impl CrownfallDifficulty {
    pub fn depth(self) -> (r: u8)
        ensures
            r == spec_depth(self),
    {
        match self {
            CrownfallDifficulty::Easy => 1,
            CrownfallDifficulty::Medium => 2,
            CrownfallDifficulty::Hard => 3,
            CrownfallDifficulty::VeryHard => 4,
        }
    }
}

/// One transposition-table slot. `tag` is the position key's upper 16 bits
/// (the slot index uses the low 12).
#[derive(Clone, Copy)]
pub struct TtEntry {
    pub tag: u16,
    pub score: i16,
    pub mv: (u8, u8),
    pub depth: u8,
    pub flag: u8,
}

/// The entry of an unused table slot.
pub open spec fn spec_tt_unset() -> TtEntry {
    TtEntry { tag: 0, score: 0, mv: (0, 0), depth: 0, flag: TT_EMPTY }
}

fn tt_unset() -> (r: TtEntry)
    ensures
        r == spec_tt_unset(),
{
    TtEntry { tag: 0, score: 0, mv: (0, 0), depth: 0, flag: TT_EMPTY }
}

/// The bits of a position key that the slot index does not pin down.
fn tt_tag(key: u32) -> (r: u16)
    ensures
        r == key / 65536,
{
    assert((key >> 16) as u16 == key / 65536) by (bit_vector);
    (key >> 16) as u16
}

/// The table slot of a position key.
fn tt_slot(key: u32) -> (r: usize)
    ensures
        r == key % 4096,
        r < TT_SIZE,
{
    let low = key & 4095u32;
    assert(key & 4095u32 < 4096u32) by (bit_vector);
    assert(key & 4095u32 == key % 4096) by (bit_vector);
    low as usize
}

/// The game `g` after `player` makes the listed move `m`.
#[verifier::opaque]
pub open spec fn spec_child(g: Snap, player: CrownfallPlayerKind, m: (u8, u8)) -> Snap {
    let o = spec_apply_action(g, spec_move_action(player, m), false).unwrap();
    Snap { cells: o.cells, state: o.state, rules: g.rules, history: o.history, msc: o.msc }
}

/// The cell of `player`'s opponent's Crown, as the move ordering uses it.
pub open spec fn spec_enemy_crown(cells: Seq<Option<CrownfallPiece>>, player: CrownfallPlayerKind) -> Option<usize> {
    match spec_crown_cell(cells, player.spec_opposite(), cells.len() as int) {
        Some(c) => Some(c as usize),
        None => None,
    }
}

/// One killer-move step of the ordering: the killer, unless it is the
/// table's move, goes to position `front` when it is listed there or later.
pub open spec fn spec_killer_step(l: Seq<(u8, u8)>, front: int, tt_move: Option<(u8, u8)>, killer: (u8, u8)) -> (Seq<(u8, u8)>, int) {
    if tt_move != Some(killer) && front < l.len() {
        match spec_find(l, front, killer) {
            Some(f) => (spec_to_front(l, front, f), front + 1),
            None => (l, front),
        }
    } else {
        (l, front)
    }
}

/// The first `n` killer steps of a node at `depth`.
pub open spec fn spec_killer_steps(l: Seq<(u8, u8)>, front: int, tt_move: Option<(u8, u8)>, killers: Seq<(u8, u8)>, depth: u8, n: int) -> (Seq<(u8, u8)>, int)
    decreases n,
{
    if n <= 0 {
        (l, front)
    } else {
        let (l1, f1) = spec_killer_steps(l, front, tt_move, killers, depth, n - 1);
        spec_killer_step(l1, f1, tt_move, killers[2 * depth + n - 1])
    }
}

/// The order a node searches its moves in: the table's move first, then
/// this depth's two killer moves, then the rest as listed.
pub open spec fn spec_order_node(list: Seq<(u8, u8)>, tt_move: Option<(u8, u8)>, killers: Seq<(u8, u8)>, depth: u8) -> Seq<(u8, u8)> {
    let (l1, f1) = match tt_move {
        Some(mv) => match spec_find(list, 0, mv) {
            Some(f) => (spec_to_front(list, 0, f), 1int),
            None => (list, 0int),
        },
        None => (list, 0int),
    };
    if depth < KILLER_PLIES { spec_killer_steps(l1, f1, tt_move, killers, depth, 2).0 } else { l1 }
}

/// The killer list after the move `m` refuted a node at `depth`: `m`
/// becomes the first killer there, the old first the second.
pub open spec fn spec_record_killer(killers: Seq<(u8, u8)>, depth: u8, m: (u8, u8)) -> Seq<(u8, u8)> {
    if depth < KILLER_PLIES {
        let level = 2 * depth;
        let first = killers[level];
        if first != m { killers.update(level + 1, first).update(level, m) } else { killers }
    } else {
        killers
    }
}

/// The table entry a node stores for its result.
pub open spec fn spec_tt_store(key: u32, best: int, mv: (u8, u8), depth: u8, alpha: int, beta: int) -> TtEntry {
    let flag = if best <= alpha { TT_UPPER } else if best >= beta { TT_LOWER } else { TT_EXACT };
    TtEntry { tag: (key / 65536) as u16, score: best as i16, mv, depth, flag }
}

/// The search of `g` from `player`'s side `depth` plies deep within
/// `(alpha, beta)`, starting from the transposition table `tt` and the
/// killer list `killers`: its score and the table and killer list it leaves.
/// Finished games score their result and depth 0 the static evaluation; a
/// table entry that settles the window answers outright; a side without
/// moves scores its static evaluation; otherwise the moves are searched in
/// the node's order (see `spec_node_loop`) and the result is stored.
#[verifier::opaque]
pub open spec fn spec_search(g: Snap, player: CrownfallPlayerKind, depth: u8, personality: CrownfallPersonality, alpha: int, beta: int, tt: Seq<TtEntry>, killers: Seq<(u8, u8)>) -> (int, Seq<TtEntry>, Seq<(u8, u8)>)
    decreases depth, 1nat, 0int,
{
    match g.state {
        CrownfallGameState::Victory(w, _) => (if w == player { VICTORY_SCORE as int } else { -VICTORY_SCORE }, tt, killers),
        CrownfallGameState::Draw(_) => (DRAW_SCORE as int, tt, killers),
        CrownfallGameState::Playing(_) => {
            let eval = spec_evaluate(g.cells, g.rules.board, g.rules, player, personality);
            if depth == 0 {
                (eval, tt, killers)
            } else {
                let key = spec_tt_key(g.history);
                let slot = (key % 4096) as int;
                let e = tt[slot];
                if spec_tt_cutoff(e, key, depth, alpha, beta) {
                    (e.score as int, tt, killers)
                } else {
                    let tt_move = if e.flag != TT_EMPTY && e.tag == key / 65536 { Some(e.mv) } else { None };
                    let list = spec_collect(g.cells, g.rules.board, player, g.rules, spec_enemy_crown(g.cells, player));
                    if list.len() == 0 {
                        (eval, tt, killers)
                    } else {
                        let moves = spec_order_node(list, tt_move, killers, depth);
                        let (best, bm, tt2, k2) = spec_node_loop(g, player, depth, personality, moves, 0, alpha, beta, i32::MIN + 1, None, tt, killers);
                        let tt3 = match bm {
                            Some(mv) => tt2.update(slot, spec_tt_store(key, best, mv, depth, alpha, beta)),
                            None => tt2,
                        };
                        (best, tt3, k2)
                    }
                }
            }
        },
    }
}

/// The score of the listed move `m` at a node searched `depth` plies deep
/// within `(alpha, beta)`, and the table and killer list it leaves: the
/// reply is searched with the full window for the node's first move;
/// later moves get a null-window probe, searched again in full only when
/// the probe lands inside the window.
#[verifier::opaque]
pub open spec fn spec_move_score(g: Snap, player: CrownfallPlayerKind, depth: u8, personality: CrownfallPersonality, m: (u8, u8), alpha: int, beta: int, first: bool, tt: Seq<TtEntry>, killers: Seq<(u8, u8)>) -> (int, Seq<TtEntry>, Seq<(u8, u8)>)
    decreases depth, 0nat, 0int,
{
    if depth == 0 {
        (0, tt, killers)
    } else {
        let c = spec_child(g, player, m);
        let opp = player.spec_opposite();
        let d = (depth - 1) as u8;
        if first {
            let (v, t, kk) = spec_search(c, opp, d, personality, -beta, -alpha, tt, killers);
            (-v, t, kk)
        } else {
            let (pv, ta, ka) = spec_search(c, opp, d, personality, -(alpha + 1), -alpha, tt, killers);
            if -pv > alpha && -pv < beta {
                let (v, t, kk) = spec_search(c, opp, d, personality, -beta, -alpha, ta, ka);
                (-v, t, kk)
            } else {
                (-pv, ta, ka)
            }
        }
    }
}

/// A node's moves from position `k` on, each scored by `spec_move_score`;
/// the first best move is kept, and once the best score reaches `beta` the
/// node ends with that move recorded as a killer. Returns the best score,
/// its move, and the table and killer list left behind.
pub open spec fn spec_node_loop(g: Snap, player: CrownfallPlayerKind, depth: u8, personality: CrownfallPersonality, moves: Seq<(u8, u8)>, k: int, alpha: int, beta: int, best: int, bm: Option<(u8, u8)>, tt: Seq<TtEntry>, killers: Seq<(u8, u8)>) -> (int, Option<(u8, u8)>, Seq<TtEntry>, Seq<(u8, u8)>)
    decreases depth, 0nat, moves.len() - k,
{
    if k < 0 || k >= moves.len() || depth == 0 {
        (best, bm, tt, killers)
    } else {
        let m = moves[k];
        let (s, tt1, k1) = spec_move_score(g, player, depth, personality, m, alpha, beta, bm is None, tt, killers);
        let (best2, bm2) = if bm is None || s > best { (s, Some(m)) } else { (best, bm) };
        let alpha2 = if best2 > alpha { best2 } else { alpha };
        if alpha2 >= beta {
            (best2, bm2, tt1, spec_record_killer(k1, depth, m))
        } else {
            spec_node_loop(g, player, depth, personality, moves, k + 1, alpha2, beta, best2, bm2, tt1, k1)
        }
    }
}

/// The root pass over `moves` from position `k` on: like a node's loop,
/// but it keeps the position and score of the first best move, and ends
/// once a score reaches `beta`.
pub open spec fn spec_root_loop(g: Snap, player: CrownfallPlayerKind, depth: u8, personality: CrownfallPersonality, moves: Seq<(u8, u8)>, k: int, alpha: int, beta: int, best: Option<(int, int)>, tt: Seq<TtEntry>, killers: Seq<(u8, u8)>) -> (Option<(int, int)>, Seq<TtEntry>, Seq<(u8, u8)>)
    decreases moves.len() - k,
{
    if k < 0 || k >= moves.len() || depth == 0 {
        (best, tt, killers)
    } else {
        let (s, t1, k1) = spec_move_score(g, player, depth, personality, moves[k], alpha, beta, best is None, tt, killers);
        let best2 = match best {
            Some((_, bs)) => if s > bs { Some((k, s)) } else { best },
            None => Some((k, s)),
        };
        let alpha2 = if s > alpha { s } else { alpha };
        if alpha2 >= beta {
            (best2, t1, k1)
        } else {
            spec_root_loop(g, player, depth, personality, moves, k + 1, alpha2, beta, best2, t1, k1)
        }
    }
}

/// The root pass's result as the search reports it.
pub open spec fn spec_root_result(player: CrownfallPlayerKind, moves: Seq<(u8, u8)>, r: Option<(int, int)>) -> Option<(usize, CrownfallPlayerAction, i32)> {
    match r {
        Some((slot, score)) => Some((slot as usize, spec_move_action(player, moves[slot]), score as i32)),
        None => None,
    }
}

/// Root passes within `(low, high)`: a result on the window's edge is only
/// a bound, so that side is opened to full width and the pass run again.
pub open spec fn spec_aspiration(g: Snap, player: CrownfallPlayerKind, depth: u8, personality: CrownfallPersonality, moves: Seq<(u8, u8)>, low: int, high: int, tt: Seq<TtEntry>, killers: Seq<(u8, u8)>) -> (Option<(int, int)>, Seq<TtEntry>, Seq<(u8, u8)>)
    decreases (if low != i32::MIN + 1 { 1int } else { 0int }) + (if high != i32::MAX - 1 { 1int } else { 0int }),
{
    let (res, t1, k1) = spec_root_loop(g, player, depth, personality, moves, 0, low, high, None, tt, killers);
    match res {
        None => (None, t1, k1),
        Some((_, score)) => if score <= low && low > i32::MIN + 1 {
            spec_aspiration(g, player, depth, personality, moves, (i32::MIN + 1) as int, high, t1, k1)
        } else if score >= high && high < i32::MAX - 1 {
            spec_aspiration(g, player, depth, personality, moves, low, (i32::MAX - 1) as int, t1, k1)
        } else {
            (res, t1, k1)
        },
    }
}

/// One iterative-deepening pass at `depth`: the full window on the first
/// pass, later ones `ASPIRATION_WINDOW` either side of the previous score.
pub open spec fn spec_deepening_pass(g: Snap, player: CrownfallPlayerKind, depth: u8, personality: CrownfallPersonality, moves: Seq<(u8, u8)>, previous: int, tt: Seq<TtEntry>, killers: Seq<(u8, u8)>) -> (Option<(int, int)>, Seq<TtEntry>, Seq<(u8, u8)>) {
    if depth == 1 {
        spec_aspiration(g, player, depth, personality, moves, (i32::MIN + 1) as int, (i32::MAX - 1) as int, tt, killers)
    } else {
        spec_aspiration(g, player, depth, personality, moves, previous - ASPIRATION_WINDOW, previous + ASPIRATION_WINDOW, tt, killers)
    }
}

/// The deepest pass iterative deepening runs for a requested depth.
pub open spec fn spec_max_depth(depth: u8) -> int {
    if depth > 1 { depth as int } else { 1 }
}

/// Iterative deepening from pass `it` up to `max_depth`: each pass's best
/// move goes to the front of the list for the next, and the last pass's
/// best move is the answer. A pass that finds no move ends the search.
/// Returns the answer, the reordered list, and the table and killer list.
pub open spec fn spec_deepen(g: Snap, player: CrownfallPlayerKind, max_depth: int, personality: CrownfallPersonality, moves: Seq<(u8, u8)>, it: int, best: Option<(u8, u8)>, previous: int, tt: Seq<TtEntry>, killers: Seq<(u8, u8)>) -> (Option<(u8, u8)>, Seq<(u8, u8)>, Seq<TtEntry>, Seq<(u8, u8)>)
    decreases max_depth + 1 - it,
{
    if it < 1 || it > max_depth {
        (best, moves, tt, killers)
    } else {
        let (res, t1, k1) = spec_deepening_pass(g, player, it as u8, personality, moves, previous, tt, killers);
        match res {
            None => (best, moves, t1, k1),
            Some((slot, score)) => spec_deepen(g, player, max_depth, personality, spec_to_front(moves, 0, slot), it + 1, Some(moves[slot]), score, t1, k1),
        }
    }
}

/// How a node scores one move (the definition of `spec_move_score`).
proof fn lemma_move_score(g: Snap, player: CrownfallPlayerKind, depth: u8, personality: CrownfallPersonality, m: (u8, u8), alpha: int, beta: int, first: bool, tt: Seq<TtEntry>, killers: Seq<(u8, u8)>)
    requires
        depth >= 1,
    ensures
        ({
            let c = spec_child(g, player, m);
            let opp = player.spec_opposite();
            let d = (depth - 1) as u8;
            spec_move_score(g, player, depth, personality, m, alpha, beta, first, tt, killers) == if first {
                let (v, t, kk) = spec_search(c, opp, d, personality, -beta, -alpha, tt, killers);
                (-v, t, kk)
            } else {
                let (pv, ta, ka) = spec_search(c, opp, d, personality, -(alpha + 1), -alpha, tt, killers);
                if -pv > alpha && -pv < beta {
                    let (v, t, kk) = spec_search(c, opp, d, personality, -beta, -alpha, ta, ka);
                    (-v, t, kk)
                } else {
                    (-pv, ta, ka)
                }
            }
        }),
{
    reveal(spec_search);
    reveal(spec_move_score);
}

/// One step of a node's move loop.
proof fn lemma_node_step(g: Snap, player: CrownfallPlayerKind, depth: u8, personality: CrownfallPersonality, moves: Seq<(u8, u8)>, k: int, alpha: int, beta: int, best: int, bm: Option<(u8, u8)>, tt: Seq<TtEntry>, killers: Seq<(u8, u8)>)
    requires
        0 <= k < moves.len(),
        depth >= 1,
    ensures
        ({
            let m = moves[k];
            let (s, tt1, k1) = spec_move_score(g, player, depth, personality, m, alpha, beta, bm is None, tt, killers);
            let (best2, bm2) = if bm is None || s > best { (s, Some(m)) } else { (best, bm) };
            let alpha2 = if best2 > alpha { best2 } else { alpha };
            spec_node_loop(g, player, depth, personality, moves, k, alpha, beta, best, bm, tt, killers)
                == if alpha2 >= beta {
                    (best2, bm2, tt1, spec_record_killer(k1, depth, m))
                } else {
                    spec_node_loop(g, player, depth, personality, moves, k + 1, alpha2, beta, best2, bm2, tt1, k1)
                }
        }),
{
    reveal(spec_search);
    reveal(spec_move_score);
}

/// A node's move loop ends when the moves do.
proof fn lemma_node_done(g: Snap, player: CrownfallPlayerKind, depth: u8, personality: CrownfallPersonality, moves: Seq<(u8, u8)>, k: int, alpha: int, beta: int, best: int, bm: Option<(u8, u8)>, tt: Seq<TtEntry>, killers: Seq<(u8, u8)>)
    requires
        k >= moves.len(),
    ensures
        spec_node_loop(g, player, depth, personality, moves, k, alpha, beta, best, bm, tt, killers) == (best, bm, tt, killers),
{
}

/// The game may be searched: its board has the rules' size, and while it is
/// in play the no-progress counter can count one more turn.
pub open spec fn spec_searchable(game: &CrownfallGame) -> bool {
    &&& game.board.spec_variant() == game.rules.board
    &&& (game.state is Playing ==> game.moves_since_capture < u16::MAX)
}

/// `player` is to move, if the game is in play at all.
pub open spec fn spec_turn_of(game: &CrownfallGame, player: CrownfallPlayerKind) -> bool {
    game.state is Playing ==> game.state->Playing_0.spec_player() == player
}

/// Everything needed to roll a game back after an applied move: the
/// board, the state, the no-progress counter and the history length.
pub struct Undo {
    pub board: CrownfallBoardState,
    pub state: CrownfallGameState,
    pub moves_since_capture: u16,
    pub history_len: usize,
}

pub fn snapshot(game: &CrownfallGame) -> (r: Undo)
    ensures
        r.board == game.board,
        r.state == game.state,
        r.moves_since_capture == game.moves_since_capture,
        r.history_len == game.history@.len(),
{
    Undo {
        board: game.board,
        state: game.state,
        moves_since_capture: game.moves_since_capture,
        history_len: game.history.len(),
    }
}

pub fn restore(game: &mut CrownfallGame, undo: &Undo)
    requires
        undo.history_len <= old(game).history@.len(),
    ensures
        final(game).board == undo.board,
        final(game).state == undo.state,
        final(game).moves_since_capture == undo.moves_since_capture,
        final(game).rules == old(game).rules,
        final(game).history@ == old(game).history@.subrange(0, undo.history_len as int),
{
    game.board = undo.board;
    game.state = undo.state;
    game.moves_since_capture = undo.moves_since_capture;
    game.history.truncate(undo.history_len);
}

/// The action moving `m.0 -> m.1` as `player`.
pub open spec fn spec_move_action(player: CrownfallPlayerKind, m: (u8, u8)) -> CrownfallPlayerAction {
    CrownfallPlayerAction::Move {
        player,
        from: CrownfallBoardCell { index: m.0 },
        to: CrownfallBoardCell { index: m.1 },
    }
}

/// What playing the listed move `m` is worth to `player` one ply deep: the
/// win, loss or draw constant when it ends the game, otherwise the negated
/// static evaluation of the position reached, from the opponent's side.
#[verifier::opaque]
pub open spec fn spec_child_score(g: Snap, player: CrownfallPlayerKind, m: (u8, u8), personality: CrownfallPersonality) -> int {
    let o = spec_apply_action(g, spec_move_action(player, m), false).unwrap();
    match o.state {
        CrownfallGameState::Victory(w, _) => if w == player { VICTORY_SCORE as int } else { -VICTORY_SCORE },
        CrownfallGameState::Draw(_) => -DRAW_SCORE,
        CrownfallGameState::Playing(_) => -spec_evaluate(o.cells, g.rules.board, g.rules, player.spec_opposite(), personality),
    }
}

/// Playing the listed move `m` ends the game at once.
#[verifier::opaque]
pub open spec fn spec_child_final(g: Snap, player: CrownfallPlayerKind, m: (u8, u8)) -> bool {
    !(spec_apply_action(g, spec_move_action(player, m), false).unwrap().state is Playing)
}

/// The score of `m` is known exactly to a search of `depth` plies: one ply
/// deep every reply is evaluated statically, and a move that ends the game
/// scores its result at any depth.
pub open spec fn spec_score_known(g: Snap, player: CrownfallPlayerKind, m: (u8, u8), depth: int) -> bool {
    depth == 1 || spec_child_final(g, player, m)
}

/// The transposition key of a node: the newest recorded position hash.
pub open spec fn spec_tt_key(history: Seq<u32>) -> u32 {
    if history.len() > 0 { history.last() } else { 0 }
}

/// The table entry `e` answers a node with key `key` searched `depth` plies
/// within `(alpha, beta)` outright: it is in use, its tag matches, it was
/// searched at least as deep, and its bound settles the window.
pub open spec fn spec_tt_cutoff(e: TtEntry, key: u32, depth: u8, alpha: int, beta: int) -> bool {
    &&& e.flag != TT_EMPTY
    &&& e.tag == key / 65536
    &&& e.depth >= depth
    &&& (e.flag == TT_EXACT || (e.flag == TT_LOWER && e.score >= beta) || (e.flag == TT_UPPER && e.score <= alpha))
}

fn move_action(player: CrownfallPlayerKind, m: (u8, u8)) -> (r: CrownfallPlayerAction)
    ensures
        r == spec_move_action(player, m),
{
    CrownfallPlayerAction::Move {
        player,
        from: CrownfallBoardCell::new_index(m.0 as usize),
        to: CrownfallBoardCell::new_index(m.1 as usize),
    }
}

/// Every listed move is accepted when `player` is to move.
proof fn lemma_listed_move_accepted(game: &CrownfallGame, player: CrownfallPlayerKind, list: Seq<(u8, u8)>, k: int, validate: bool)
    requires
        game.board.spec_variant() == game.rules.board,
        game.state is Playing,
        game.state->Playing_0.spec_player() == player,
        spec_move_set(list, game.board@, game.board.spec_variant(), player, game.rules),
        0 <= k < list.len(),
    ensures
        spec_apply_action(game.snap(), spec_move_action(player, list[k]), validate) is Ok,
{
    game.board.lemma_len();
    let m = list[k];
    assert(spec_allowed_step(game.board@, game.board.spec_variant(), player, game.rules, m));
    lemma_move_accepted(game.snap(), player, CrownfallBoardCell { index: m.0 }, CrownfallBoardCell { index: m.1 }, validate);
}

/// The first position at or after `k` where `s` lists `mv`.
pub open spec fn spec_find(s: Seq<(u8, u8)>, k: int, mv: (u8, u8)) -> Option<int>
    decreases s.len() - k,
{
    if k < 0 || k >= s.len() {
        None
    } else if s[k] == mv {
        Some(k)
    } else {
        spec_find(s, k + 1, mv)
    }
}

/// `s` with its entry at `found` moved to position `start`, the entries in
/// between shifted one place back.
pub open spec fn spec_to_front(s: Seq<(u8, u8)>, start: int, found: int) -> Seq<(u8, u8)> {
    s.take(start).push(s[found]) + s.subrange(start, found) + s.subrange(found + 1, s.len() as int)
}

/// The position of `mv` in `list[start..]`, if listed.
fn find_move(list: &Vec<(u8, u8)>, start: usize, mv: (u8, u8)) -> (r: Option<usize>)
    ensures
        r matches Some(k) ==> start <= k < list.len() && list@[k as int] == mv
            && forall|j: int| start <= j < k ==> list@[j] != mv,
        r is None ==> forall|j: int| start <= j < list.len() ==> list@[j] != mv,
        r matches Some(k) ==> spec_find(list@, start as int, mv) == Some(k as int),
        r is None ==> spec_find(list@, start as int, mv) is None,
{
    let mut k = start;
    while k < list.len()
        invariant
            start <= k,
            forall|j: int| start <= j < k ==> list@[j] != mv,
            spec_find(list@, start as int, mv) == spec_find(list@, k as int, mv),
        decreases list.len() - k,
    {
        if list[k].0 == mv.0 && list[k].1 == mv.1 {
            assert(list@[k as int] == mv);
            return Some(k);
        }
        k = k + 1;
    }
    None
}

/// Moves `list[found]` to position `start`, shifting `list[start..found]`
/// one place back.
fn move_to_front(list: &mut Vec<(u8, u8)>, start: usize, found: usize)
    requires
        start <= found < old(list).len(),
    ensures
        final(list).len() == old(list).len(),
        spec_same_moves(final(list)@, old(list)@),
        final(list)@[start as int] == old(list)@[found as int],
        final(list)@ == spec_to_front(old(list)@, start as int, found as int),
{
    let ghost orig = list@;
    let picked = list[found];
    let mut i = found;
    while i > start
        invariant
            start <= i <= found < orig.len(),
            list.len() == orig.len(),
            picked == orig[found as int],
            forall|j: int| 0 <= j <= i ==> #[trigger] list@[j] == orig[j],
            forall|j: int| i < j <= found ==> #[trigger] list@[j] == orig[j - 1],
            forall|j: int| found < j < orig.len() ==> #[trigger] list@[j] == orig[j],
        decreases i,
    {
        let prev = list[i - 1];
        list[i] = prev;
        i = i - 1;
    }
    list[start] = picked;
    proof {
        let out = list@;
        assert(out =~= spec_to_front(orig, start as int, found as int));
        assert forall|k: int| 0 <= k < out.len() implies orig.contains(#[trigger] out[k]) by {
            if k == start {
                assert(orig[found as int] == out[k]);
            } else if start < k <= found {
                assert(orig[k - 1] == out[k]);
            } else {
                assert(orig[k] == out[k]);
            }
        }
        assert forall|k: int| 0 <= k < orig.len() implies out.contains(#[trigger] orig[k]) by {
            if k == found {
                assert(out[start as int] == orig[k]);
            } else if start <= k < found {
                assert(out[k + 1] == orig[k]);
            } else {
                assert(out[k] == orig[k]);
            }
        }
    }
}

proof fn lemma_same_moves_keep_set(out: Seq<(u8, u8)>, inp: Seq<(u8, u8)>, game: &CrownfallGame, player: CrownfallPlayerKind)
    requires
        spec_same_moves(out, inp),
        spec_move_set(inp, game.board@, game.board.spec_variant(), player, game.rules),
    ensures
        spec_move_set(out, game.board@, game.board.spec_variant(), player, game.rules),
{
    let cells = game.board@;
    let v = game.board.spec_variant();
    let rules = game.rules;
    assert forall|k: int| 0 <= k < out.len() implies spec_allowed_step(cells, v, player, rules, #[trigger] out[k]) by {
        let j = choose|j: int| 0 <= j < inp.len() && inp[j] == out[k];
        assert(spec_allowed_step(cells, v, player, rules, inp[j]));
    }
    assert forall|m: (u8, u8)| #[trigger] spec_allowed_step(cells, v, player, rules, m) implies out.contains(m) by {
        assert(inp.contains(m));
        let j = choose|j: int| 0 <= j < inp.len() && inp[j] == m;
        assert(out.contains(inp[j]));
    }
}

/// The game is back where a node started.
pub open spec fn spec_restored(now: &CrownfallGame, before: &CrownfallGame) -> bool {
    &&& now.board == before.board
    &&& now.state == before.state
    &&& now.rules == before.rules
    &&& now.history@ == before.history@
    &&& now.moves_since_capture == before.moves_since_capture
}

/// Applies a listed move to the working game and searches the reply.
/// Returns the move's score from `player`'s side; the game is left as it
/// was.
fn score_move(game: &mut CrownfallGame, player: CrownfallPlayerKind, m: (u8, u8), depth: u8, personality: CrownfallPersonality, alpha: i32, beta: i32, tt: &mut Vec<TtEntry>, killers: &mut Vec<(u8, u8)>, undo: &Undo) -> (r: i32)
    requires
        spec_searchable(old(game)),
        old(game).state is Playing,
        old(game).state->Playing_0.spec_player() == player,
        spec_apply_action(old(game).snap(), spec_move_action(player, m), false) is Ok,
        undo.board == old(game).board,
        undo.state == old(game).state,
        undo.moves_since_capture == old(game).moves_since_capture,
        undo.history_len == old(game).history@.len(),
        i32::MIN + 1 <= alpha < beta,
        depth >= 1,
        old(tt).len() == TT_SIZE,
        old(killers).len() == 2 * KILLER_PLIES,
    ensures
        spec_restored(final(game), old(game)),
        final(tt).len() == TT_SIZE,
        final(killers).len() == 2 * KILLER_PLIES,
        -EVAL_BOUND <= r <= EVAL_BOUND,
        ({
            let o = spec_apply_action(old(game).snap(), spec_move_action(player, m), false).unwrap();
            &&& o.state matches CrownfallGameState::Victory(w, _) ==> r == (if w == player { VICTORY_SCORE as int } else { -VICTORY_SCORE })
            &&& o.state is Draw ==> r == -DRAW_SCORE
            &&& o.state is Playing && depth == 1 ==> r == -spec_evaluate(o.cells, old(game).board.spec_variant(), old(game).rules, player.spec_opposite(), personality)
        }),
        spec_score_known(old(game).snap(), player, m, depth as int) ==> r == spec_child_score(old(game).snap(), player, m, personality),
        ({
            let (v, t, kk) = spec_search(spec_child(old(game).snap(), player, m), player.spec_opposite(), (depth - 1) as u8, personality, -(beta as int), -(alpha as int), old(tt)@, old(killers)@);
            &&& r == -v
            &&& final(tt)@ == t
            &&& final(killers)@ == kk
        }),
    decreases depth, 0nat,
{
    let ghost before = game.snap();
    proof {
        reveal(spec_child_score);
        reveal(spec_child_final);
        reveal(spec_child);
    }
    let action = move_action(player, m);
    let applied = game.apply_action_quiet(action);
    proof {
        lemma_action_follows(before, action, false);
    }
    match applied {
        Err(_) => {
            // Not reached: listed moves are legal for the side to move.
            restore(game, undo);
            proof {
                assert(game.history@ =~= before.history);
            }
            0
        },
        Ok(_) => {
            let probe = negamax(game, player.opposite(), depth - 1, personality, -beta, -alpha, tt, killers);
            let score = -probe;
            proof {
                assert(spec_history_extends(game.history@, before.history));
            }
            restore(game, undo);
            proof {
                assert(game.history@ =~= before.history);
            }
            score
        },
    }
}

/// Alpha-beta negamax from `player`'s side (principal variation search with
/// a transposition table and killer moves). Terminal positions score the
/// victory or draw constant, depth 0 the static evaluation. A table entry
/// that settles the window answers a node outright. Otherwise a side with
/// no move scores its static evaluation; a result below `beta` is at least
/// the score of every move whose score the search knows exactly (every move
/// one ply deep, and at any depth every move that ends the game); and one
/// ply deep the result is the score of one of the moves, so below `beta` it
/// is their maximum. In full: the score, and the table and killer list
/// left behind, are those of `spec_search`.
#[verifier::rlimit(100)]
fn negamax(game: &mut CrownfallGame, player: CrownfallPlayerKind, depth: u8, personality: CrownfallPersonality, alpha: i32, beta: i32, tt: &mut Vec<TtEntry>, killers: &mut Vec<(u8, u8)>) -> (r: i32)
    requires
        spec_searchable(old(game)),
        spec_turn_of(old(game), player),
        i32::MIN + 1 <= alpha < beta,
        old(tt).len() == TT_SIZE,
        old(killers).len() == 2 * KILLER_PLIES,
    ensures
        spec_restored(final(game), old(game)),
        final(tt).len() == TT_SIZE,
        final(killers).len() == 2 * KILLER_PLIES,
        -EVAL_BOUND <= r <= EVAL_BOUND,
        old(game).state matches CrownfallGameState::Victory(w, _) ==> r == (if w == player { VICTORY_SCORE as int } else { -VICTORY_SCORE }),
        old(game).state is Draw ==> r == DRAW_SCORE,
        old(game).state is Playing && depth == 0 ==> r == spec_evaluate(old(game).board@, old(game).board.spec_variant(), old(game).rules, player, personality),
        ({
            let g = old(game).snap();
            let cells = old(game).board@;
            let v = old(game).board.spec_variant();
            let rules = old(game).rules;
            let key = spec_tt_key(old(game).history@);
            let e = old(tt)@[(key % 4096) as int];
            old(game).state is Playing && depth >= 1 ==> {
                &&& spec_tt_cutoff(e, key, depth, alpha as int, beta as int) ==> r == e.score
                &&& !spec_tt_cutoff(e, key, depth, alpha as int, beta as int) ==> {
                    &&& (forall|m: (u8, u8)| !#[trigger] spec_allowed_step(cells, v, player, rules, m))
                        ==> r == spec_evaluate(cells, v, rules, player, personality)
                    &&& r < beta ==> forall|m: (u8, u8)| #[trigger] spec_allowed_step(cells, v, player, rules, m)
                        && spec_score_known(g, player, m, depth as int) ==> spec_child_score(g, player, m, personality) <= r
                    &&& depth == 1 && (exists|m: (u8, u8)| #[trigger] spec_allowed_step(cells, v, player, rules, m))
                        ==> exists|m: (u8, u8)| #[trigger] spec_allowed_step(cells, v, player, rules, m)
                            && spec_child_score(g, player, m, personality) == r
                }
            }
        }),
        ({
            let (v, t, kk) = spec_search(old(game).snap(), player, depth, personality, alpha as int, beta as int, old(tt)@, old(killers)@);
            &&& r == v
            &&& final(tt)@ == t
            &&& final(killers)@ == kk
        }),
    decreases depth, 1nat,
{
    proof {
        reveal(spec_search);
    }
    match game.state {
        CrownfallGameState::Victory(winner, _) => {
            return if winner == player { VICTORY_SCORE } else { -VICTORY_SCORE };
        },
        CrownfallGameState::Draw(_) => {
            return DRAW_SCORE;
        },
        CrownfallGameState::Playing(_) => {},
    }
    if depth == 0 {
        return evaluate(game, player, personality);
    }
    let ghost g0 = *game;
    proof {
        game.board.lemma_len();
    }
    // Transposition probe: the key is the position hash the repetition rule
    // already records for the position reached.
    let hl = game.history.len();
    let key: u32 = if hl > 0 { game.history[hl - 1] } else { 0 };
    let slot = tt_slot(key);
    let entry = tt[slot];
    let mut tt_move: Option<(u8, u8)> = None;
    if entry.flag != TT_EMPTY && entry.tag == tt_tag(key) {
        if entry.depth >= depth {
            let stored = entry.score as i32;
            if entry.flag == TT_EXACT {
                return stored;
            }
            if entry.flag == TT_LOWER && stored >= beta {
                return stored;
            }
            if entry.flag == TT_UPPER && stored <= alpha {
                return stored;
            }
        }
        tt_move = Some(entry.mv);
    }
    let ghost kl0 = killers@;

    let enemy_crown = crown_cell(&game.board, player.opposite());
    let mut moves = collect_moves(&game.board, player, game.rules, enemy_crown);
    let ghost list0 = moves@;
    if moves.len() == 0 {
        return evaluate(game, player, personality);
    }
    // Front-load the table's move, then this depth's killers behind it.
    let mut front: usize = 0;
    match tt_move {
        Some(mv) => match find_move(&moves, 0, mv) {
            Some(found) => {
                let ghost before = moves@;
                move_to_front(&mut moves, 0, found);
                proof {
                    lemma_same_moves_keep_set(moves@, before, game, player);
                }
                front = 1;
            },
            None => {},
        },
        None => {},
    }
    let ghost l1 = moves@;
    let ghost f1 = front as int;
    if (depth as usize) < KILLER_PLIES {
        let level = 2 * (depth as usize);
        let mut which: usize = 0;
        while which < 2
            invariant
                killers@ == kl0,
                level == 2 * depth,
                (moves@, front as int) == spec_killer_steps(l1, f1, tt_move, kl0, depth, which as int),
                which <= 2,
                level + 1 < killers.len(),
                killers.len() == 2 * KILLER_PLIES,
                front <= moves.len(),
                moves.len() > 0,
                spec_move_set(moves@, game.board@, game.board.spec_variant(), player, game.rules),
                *game == g0,
            decreases 2 - which,
        {
            let ghost prev = (moves@, front as int);
            let killer = killers[level + which];
            let is_tt_move = match tt_move {
                Some(mv) => mv.0 == killer.0 && mv.1 == killer.1,
                None => false,
            };
            assert(is_tt_move == (tt_move == Some(killer)));
            assert(killer == kl0[2 * depth + (which + 1) - 1]);
            if !is_tt_move && front < moves.len() {
                match find_move(&moves, front, killer) {
                    Some(found) => {
                        let ghost before = moves@;
                        move_to_front(&mut moves, front, found);
                        proof {
                            lemma_same_moves_keep_set(moves@, before, game, player);
                        }
                        front = front + 1;
                    },
                    None => {},
                }
            }
            proof {
                assert((moves@, front as int) == spec_killer_step(prev.0, prev.1, tt_move, killer));
                assert(spec_killer_steps(l1, f1, tt_move, kl0, depth, which + 1)
                    == spec_killer_step(prev.0, prev.1, tt_move, kl0[2 * depth + (which + 1) - 1]));
            }
            which = which + 1;
        }
    }
    proof {
        assert(moves@ == spec_order_node(list0, tt_move, kl0, depth));
    }

    let alpha_start = alpha;
    let mut alpha = alpha;
    let mut best: i32 = i32::MIN + 1;
    let mut best_move: Option<(u8, u8)> = None;
    // One snapshot per node: every move tried here rolls back to it.
    let undo = snapshot(game);
    let ghost g = g0.snap();
    // How many moves have been scored, and which of them scored `best`.
    let ghost mut seen: int = 0;
    let ghost mut best_at: int = 0;
    let ghost total = spec_node_loop(g, player, depth, personality, moves@, 0, alpha_start as int, beta as int, (i32::MIN + 1) as int, None, tt@, killers@);
    let mut k: usize = 0;
    while k < moves.len()
        invariant
            spec_node_loop(g, player, depth, personality, moves@, k as int, alpha as int, beta as int, best as int, best_move, tt@, killers@) == total,
            g == g0.snap(),
            seen <= k,
            seen == k || best >= beta,
            best_move is Some ==> 0 <= best_at < seen && best_move == Some(moves@[best_at])
                && (depth == 1 ==> spec_child_score(g, player, moves@[best_at], personality) == best),
            best_move is Some ==> forall|j: int| 0 <= j < seen && spec_score_known(g, player, #[trigger] moves@[j], depth as int)
                ==> spec_child_score(g, player, moves@[j], personality) <= best,
            alpha == alpha_start || (best_move is Some && alpha == best),
            spec_restored(game, &g0),
            g0.state is Playing,
            g0.state->Playing_0.spec_player() == player,
            spec_searchable(&g0),
            undo.board == g0.board,
            undo.state == g0.state,
            undo.moves_since_capture == g0.moves_since_capture,
            undo.history_len == g0.history@.len(),
            spec_move_set(moves@, g0.board@, g0.board.spec_variant(), player, g0.rules),
            moves.len() > 0,
            depth >= 1,
            k <= moves.len(),
            i32::MIN + 1 <= alpha_start <= alpha,
            alpha_start < beta,
            k < moves.len() ==> alpha < beta,
            tt.len() == TT_SIZE,
            killers.len() == 2 * KILLER_PLIES,
            k > 0 ==> best_move is Some && -EVAL_BOUND <= best <= EVAL_BOUND,
            k == 0 ==> best_move is None,
            best_move is Some ==> alpha >= best,
        decreases moves.len() - k,
    {
        let m = moves[k];
        proof {
            lemma_listed_move_accepted(&g0, player, moves@, k as int, false);
            lemma_node_step(g, player, depth, personality, moves@, k as int, alpha as int, beta as int, best as int, best_move, tt@, killers@);
        }
        let ghost first = best_move is None;
        let ghost tt_in = tt@;
        let ghost kl_in = killers@;
        let ghost alpha_in = alpha as int;
        assert(game.snap() == g);
        // Principal variation search: the first move gets the full window,
        // later ones a null-window probe, re-searched only when it fails high.
        let score = if best_move.is_none() {
            score_move(game, player, m, depth, personality, alpha, beta, tt, killers, &undo)
        } else {
            let probe = score_move(game, player, m, depth, personality, alpha, alpha + 1, tt, killers, &undo);
            if probe > alpha && probe < beta {
                score_move(game, player, m, depth, personality, alpha, beta, tt, killers, &undo)
            } else {
                probe
            }
        };
        let ghost old_best = best;
        let ghost had_best = best_move is Some;
        proof {
            lemma_move_score(g, player, depth, personality, m, alpha_in, beta as int, first, tt_in, kl_in);
            assert((score as int, tt@, killers@) == spec_move_score(g, player, depth, personality, m, alpha_in, beta as int, first, tt_in, kl_in));
            assert(spec_score_known(g, player, m, depth as int) ==> score == spec_child_score(g, player, m, personality));
        }
        if best_move.is_none() || score > best {
            best = score;
            best_move = Some(m);
            proof {
                best_at = k as int;
            }
        }
        proof {
            assert forall|j: int| 0 <= j < k + 1 && spec_score_known(g, player, #[trigger] moves@[j], depth as int)
                implies spec_child_score(g, player, moves@[j], personality) <= best by {
                if j < k {
                    assert(had_best);
                    assert(spec_child_score(g, player, moves@[j], personality) <= old_best);
                }
            }
            seen = k + 1;
        }
        if best > alpha {
            alpha = best;
        }
        if alpha >= beta {
            // Remember the refuting move for sibling nodes at this depth.
            if (depth as usize) < KILLER_PLIES {
                let level = 2 * (depth as usize);
                let first = killers[level];
                if !(first.0 == m.0 && first.1 == m.1) {
                    killers[level + 1] = first;
                    killers[level] = m;
                }
            }
            k = moves.len();
        } else {
            k = k + 1;
        }
    }
    proof {
        lemma_node_done(g, player, depth, personality, moves@, k as int, alpha as int, beta as int, best as int, best_move, tt@, killers@);
    }
    // Store the result, always replacing the slot.
    match best_move {
        Some(mv) => {
            let flag = if best <= alpha_start {
                TT_UPPER
            } else if best >= beta {
                TT_LOWER
            } else {
                TT_EXACT
            };
            tt[slot] = TtEntry { tag: tt_tag(key), score: best as i16, mv, depth, flag };
        },
        None => {},
    }
    best
}

/// One root-level pass over `moves` at `depth`: the best move's slot, action
/// and score, or `None` if every move was rejected. The first move scoring
/// highest wins; a score below `beta` is at least every exactly known move
/// score, and one ply deep it is the chosen move's own score.
fn search_root(game: &mut CrownfallGame, moves: &Vec<(u8, u8)>, player: CrownfallPlayerKind, depth: u8, personality: CrownfallPersonality, alpha: i32, beta: i32, tt: &mut Vec<TtEntry>, killers: &mut Vec<(u8, u8)>, undo: &Undo) -> (r: Option<(usize, CrownfallPlayerAction, i32)>)
    requires
        spec_searchable(old(game)),
        old(game).state is Playing,
        old(game).state->Playing_0.spec_player() == player,
        spec_move_set(moves@, old(game).board@, old(game).board.spec_variant(), player, old(game).rules),
        undo.board == old(game).board,
        undo.state == old(game).state,
        undo.moves_since_capture == old(game).moves_since_capture,
        undo.history_len == old(game).history@.len(),
        i32::MIN + 1 <= alpha < beta,
        depth >= 1,
        old(tt).len() == TT_SIZE,
        old(killers).len() == 2 * KILLER_PLIES,
    ensures
        spec_restored(final(game), old(game)),
        final(tt).len() == TT_SIZE,
        final(killers).len() == 2 * KILLER_PLIES,
        r matches Some((slot, action, score)) ==> {
            let g = old(game).snap();
            &&& slot < moves.len()
            &&& action == spec_move_action(player, moves@[slot as int])
            &&& -EVAL_BOUND <= score <= EVAL_BOUND
            &&& score < beta ==> forall|j: int| 0 <= j < moves.len() && spec_score_known(g, player, #[trigger] moves@[j], depth as int)
                ==> spec_child_score(g, player, moves@[j], personality) <= score
            &&& depth == 1 ==> score == spec_child_score(g, player, moves@[slot as int], personality)
                && forall|j: int| 0 <= j < slot ==> spec_child_score(g, player, #[trigger] moves@[j], personality) < score
        },
        moves.len() > 0 ==> r is Some,
        ({
            let (res, t, kk) = spec_root_loop(old(game).snap(), player, depth, personality, moves@, 0, alpha as int, beta as int, None, old(tt)@, old(killers)@);
            &&& r == spec_root_result(player, moves@, res)
            &&& final(tt)@ == t
            &&& final(killers)@ == kk
            &&& res matches Some((sl, sc)) ==> 0 <= sl < moves.len() && -EVAL_BOUND <= sc <= EVAL_BOUND
        }),
{
    let ghost g0 = *game;
    let ghost g = g0.snap();
    let ghost alpha_start = alpha;
    let mut alpha = alpha;
    let mut best: Option<(usize, CrownfallPlayerAction, i32)> = None;
    // How many moves have been scored.
    let ghost mut seen: int = 0;
    let ghost total = spec_root_loop(g, player, depth, personality, moves@, 0, alpha as int, beta as int, None, tt@, killers@);
    let ghost mut best_g: Option<(int, int)> = None;
    let mut k: usize = 0;
    while k < moves.len()
        invariant
            spec_root_loop(g, player, depth, personality, moves@, k as int, alpha as int, beta as int, best_g, tt@, killers@) == total,
            best == spec_root_result(player, moves@, best_g),
            best_g matches Some((sl, sc)) ==> 0 <= sl < moves.len() && -EVAL_BOUND <= sc <= EVAL_BOUND,
            g == g0.snap(),
            alpha_start < beta,
            seen <= k,
            best matches Some((slot, action, score)) ==> {
                &&& slot < seen
                &&& (seen == k || score >= beta)
                &&& (alpha == alpha_start || alpha == score)
                &&& forall|j: int| 0 <= j < seen && spec_score_known(g, player, #[trigger] moves@[j], depth as int)
                    ==> spec_child_score(g, player, moves@[j], personality) <= score
                &&& depth == 1 ==> score == spec_child_score(g, player, moves@[slot as int], personality)
                    && forall|j: int| 0 <= j < slot ==> spec_child_score(g, player, #[trigger] moves@[j], personality) < score
            },
            best is None ==> seen == k && alpha == alpha_start,
            spec_restored(game, &g0),
            g0.state is Playing,
            g0.state->Playing_0.spec_player() == player,
            spec_searchable(&g0),
            undo.board == g0.board,
            undo.state == g0.state,
            undo.moves_since_capture == g0.moves_since_capture,
            undo.history_len == g0.history@.len(),
            spec_move_set(moves@, g0.board@, g0.board.spec_variant(), player, g0.rules),
            depth >= 1,
            k <= moves.len(),
            i32::MIN + 1 <= alpha,
            k < moves.len() ==> alpha < beta,
            tt.len() == TT_SIZE,
            killers.len() == 2 * KILLER_PLIES,
            best matches Some((slot, action, score)) ==> {
                &&& slot < moves.len()
                &&& action == spec_move_action(player, moves@[slot as int])
                &&& -EVAL_BOUND <= score <= EVAL_BOUND
                &&& alpha >= score
            },
            k > 0 ==> best is Some,
        decreases moves.len() - k,
    {
        let m = moves[k];
        proof {
            lemma_listed_move_accepted(&g0, player, moves@, k as int, false);
        }
        let action = move_action(player, m);
        let ghost first = best is None;
        let ghost tt_in = tt@;
        let ghost kl_in = killers@;
        let ghost alpha_in = alpha as int;
        let ghost best_in = best_g;
        assert(game.snap() == g);
        let score = match best {
            None => score_move(game, player, m, depth, personality, alpha, beta, tt, killers, undo),
            Some(_) => {
                let probe = score_move(game, player, m, depth, personality, alpha, alpha + 1, tt, killers, undo);
                if probe > alpha && probe < beta {
                    score_move(game, player, m, depth, personality, alpha, beta, tt, killers, undo)
                } else {
                    probe
                }
            },
        };
        let better = match best {
            None => true,
            Some((_, _, s)) => score > s,
        };
        let ghost old_best = best;
        if better {
            best = Some((k, action, score));
        }
        proof {
            lemma_move_score(g, player, depth, personality, m, alpha_in, beta as int, first, tt_in, kl_in);
            assert((score as int, tt@, killers@) == spec_move_score(g, player, depth, personality, m, alpha_in, beta as int, first, tt_in, kl_in));
            if better {
                best_g = Some((k as int, score as int));
            }
            let (slot, _, sc) = best.unwrap();
            assert forall|j: int| 0 <= j < k + 1 && spec_score_known(g, player, #[trigger] moves@[j], depth as int)
                implies spec_child_score(g, player, moves@[j], personality) <= sc by {
                if j < k {
                    let (_, _, ob) = old_best.unwrap();
                    assert(spec_child_score(g, player, moves@[j], personality) <= ob);
                }
            }
            if depth == 1 && better && old_best is Some {
                let (os, _, ob) = old_best.unwrap();
                assert forall|j: int| 0 <= j < k implies spec_child_score(g, player, #[trigger] moves@[j], personality) < sc by {
                    assert(spec_child_score(g, player, moves@[j], personality) <= ob);
                }
            }
            seen = k + 1;
        }
        if score > alpha {
            alpha = score;
        }
        if alpha >= beta {
            k = moves.len();
        } else {
            k = k + 1;
        }
    }
    best
}

/// One iterative-deepening pass at `depth`. After the first pass the
/// window opens only `ASPIRATION_WINDOW` either side of the previous score;
/// a result on the window's edge is only a bound, so that side is reopened
/// to full width and the pass rerun.
fn aspiration_pass(work: &mut CrownfallGame, moves: &Vec<(u8, u8)>, player: CrownfallPlayerKind, depth: u8, personality: CrownfallPersonality, previous_score: i32, tt: &mut Vec<TtEntry>, killers: &mut Vec<(u8, u8)>, undo: &Undo) -> (r: Option<(usize, CrownfallPlayerAction, i32)>)
    requires
        spec_searchable(old(work)),
        old(work).state is Playing,
        old(work).state->Playing_0.spec_player() == player,
        spec_move_set(moves@, old(work).board@, old(work).board.spec_variant(), player, old(work).rules),
        undo.board == old(work).board,
        undo.state == old(work).state,
        undo.moves_since_capture == old(work).moves_since_capture,
        undo.history_len == old(work).history@.len(),
        depth >= 1,
        -EVAL_BOUND <= previous_score <= EVAL_BOUND,
        old(tt).len() == TT_SIZE,
        old(killers).len() == 2 * KILLER_PLIES,
    ensures
        spec_restored(final(work), old(work)),
        final(tt).len() == TT_SIZE,
        final(killers).len() == 2 * KILLER_PLIES,
        r matches Some((slot, action, score)) ==> {
            let g = old(work).snap();
            &&& slot < moves.len()
            &&& action == spec_move_action(player, moves@[slot as int])
            &&& -EVAL_BOUND <= score <= EVAL_BOUND
            &&& forall|j: int| 0 <= j < moves.len() && spec_score_known(g, player, #[trigger] moves@[j], depth as int)
                ==> spec_child_score(g, player, moves@[j], personality) <= score
            &&& depth == 1 ==> score == spec_child_score(g, player, moves@[slot as int], personality)
                && forall|j: int| 0 <= j < slot ==> spec_child_score(g, player, #[trigger] moves@[j], personality) < score
        },
        moves.len() > 0 ==> r is Some,
        ({
            let (res, t, kk) = spec_deepening_pass(old(work).snap(), player, depth, personality, moves@, previous_score as int, old(tt)@, old(killers)@);
            &&& r == spec_root_result(player, moves@, res)
            &&& final(tt)@ == t
            &&& final(killers)@ == kk
            &&& res matches Some((sl, sc)) ==> 0 <= sl < moves.len() && -EVAL_BOUND <= sc <= EVAL_BOUND
        }),
{
    let ghost w0 = *work;
    let ghost g = w0.snap();
    let mut window_low: i32 = if depth == 1 { i32::MIN + 1 } else { previous_score - ASPIRATION_WINDOW };
    let mut window_high: i32 = if depth == 1 { i32::MAX - 1 } else { previous_score + ASPIRATION_WINDOW };
    let mut outcome: Option<(usize, CrownfallPlayerAction, i32)> = None;
    let mut searching = true;
    let ghost total = spec_deepening_pass(g, player, depth, personality, moves@, previous_score as int, tt@, killers@);
    let ghost mut out_g: Option<(int, int)> = None;
    while searching
        invariant
            searching ==> spec_aspiration(g, player, depth, personality, moves@, window_low as int, window_high as int, tt@, killers@) == total,
            !searching ==> total == (out_g, tt@, killers@) && outcome == spec_root_result(player, moves@, out_g),
            out_g matches Some((sl, sc)) ==> 0 <= sl < moves.len() && -EVAL_BOUND <= sc <= EVAL_BOUND,
            spec_restored(work, &w0),
            spec_searchable(&w0),
            w0.state is Playing,
            w0.state->Playing_0.spec_player() == player,
            undo.board == w0.board,
            undo.state == w0.state,
            undo.moves_since_capture == w0.moves_since_capture,
            undo.history_len == w0.history@.len(),
            spec_move_set(moves@, w0.board@, w0.board.spec_variant(), player, w0.rules),
            i32::MIN + 1 <= window_low < window_high <= i32::MAX - 1,
            depth >= 1,
            tt.len() == TT_SIZE,
            killers.len() == 2 * KILLER_PLIES,
            g == w0.snap(),
            outcome matches Some((slot, action, score)) ==> {
                &&& slot < moves.len()
                &&& action == spec_move_action(player, moves@[slot as int])
                &&& -EVAL_BOUND <= score <= EVAL_BOUND
                &&& forall|j: int| 0 <= j < moves.len() && spec_score_known(g, player, #[trigger] moves@[j], depth as int)
                    ==> spec_child_score(g, player, moves@[j], personality) <= score
                &&& depth == 1 ==> score == spec_child_score(g, player, moves@[slot as int], personality)
                    && forall|j: int| 0 <= j < slot ==> spec_child_score(g, player, #[trigger] moves@[j], personality) < score
            },
            !searching && moves.len() > 0 ==> outcome is Some,
        decreases (if window_low != i32::MIN + 1 { 1int } else { 0int }) + (if window_high != i32::MAX - 1 { 1int } else { 0int }) + (if searching { 1int } else { 0int }),
    {
        proof {
            assert(work.snap() == g);
        }
        let ghost tt_in = tt@;
        let ghost kl_in = killers@;
        assert(work.snap() == g);
        let res = search_root(work, moves, player, depth, personality, window_low, window_high, tt, killers, undo);
        let ghost root = spec_root_loop(g, player, depth, personality, moves@, 0, window_low as int, window_high as int, None, tt_in, kl_in);
        match res {
            None => {
                outcome = None;
                searching = false;
                proof {
                    out_g = None;
                }
            },
            Some((slot, action, score)) => {
                if score <= window_low && window_low > i32::MIN + 1 {
                    window_low = i32::MIN + 1;
                } else if score >= window_high && window_high < i32::MAX - 1 {
                    window_high = i32::MAX - 1;
                } else {
                    outcome = Some((slot, action, score));
                    searching = false;
                    proof {
                        out_g = root.0;
                    }
                }
            },
        }
    }
    outcome
}

/// No move is accepted unless the game is in play with `player` to move.
proof fn lemma_no_move_out_of_turn(game: &CrownfallGame, player: CrownfallPlayerKind)
    requires
        spec_searchable(game),
        !(game.state is Playing && game.state->Playing_0.spec_player() == player),
    ensures
        forall|from: CrownfallBoardCell, to: CrownfallBoardCell|
            !(#[trigger] spec_apply_action(game.snap(), CrownfallPlayerAction::Move { player, from, to }, true) is Ok),
{
    game.board.lemma_len();
    assert forall|from: CrownfallBoardCell, to: CrownfallBoardCell|
        !(#[trigger] spec_apply_action(game.snap(), CrownfallPlayerAction::Move { player, from, to }, true) is Ok) by {
        lemma_move_accepted(game.snap(), player, from, to, true);
    }
}

/// With no allowed step listed, no move is accepted.
proof fn lemma_no_move_unlisted(game: &CrownfallGame, player: CrownfallPlayerKind, moves: Seq<(u8, u8)>)
    requires
        spec_searchable(game),
        spec_move_set(moves, game.board@, game.board.spec_variant(), player, game.rules),
        moves.len() == 0,
    ensures
        forall|from: CrownfallBoardCell, to: CrownfallBoardCell|
            !(#[trigger] spec_apply_action(game.snap(), CrownfallPlayerAction::Move { player, from, to }, true) is Ok),
{
    game.board.lemma_len();
    assert forall|from: CrownfallBoardCell, to: CrownfallBoardCell|
        !(#[trigger] spec_apply_action(game.snap(), CrownfallPlayerAction::Move { player, from, to }, true) is Ok) by {
        lemma_move_accepted(game.snap(), player, from, to, true);
        if spec_apply_action(game.snap(), CrownfallPlayerAction::Move { player, from, to }, true) is Ok {
            assert(spec_allowed_step(game.board@, game.board.spec_variant(), player, game.rules, (from.index, to.index)));
            assert(moves.contains((from.index, to.index)));
        }
    }
}

/// Iterative deepening: a pass at depth 1, 2, ... up to `depth` (at least
/// one pass), each pass's best root move going first in the next. The
/// result is the move in front after the last pass.
fn deepen(work: &mut CrownfallGame, moves: &mut Vec<(u8, u8)>, player: CrownfallPlayerKind, depth: u8, personality: CrownfallPersonality, tt: &mut Vec<TtEntry>, killers: &mut Vec<(u8, u8)>) -> (r: Option<CrownfallPlayerAction>)
    requires
        spec_searchable(old(work)),
        old(work).state is Playing,
        old(work).state->Playing_0.spec_player() == player,
        spec_move_set(old(moves)@, old(work).board@, old(work).board.spec_variant(), player, old(work).rules),
        old(tt).len() == TT_SIZE,
        old(killers).len() == 2 * KILLER_PLIES,
    ensures
        spec_restored(final(work), old(work)),
        final(tt).len() == TT_SIZE,
        final(killers).len() == 2 * KILLER_PLIES,
        spec_move_set(final(moves)@, old(work).board@, old(work).board.spec_variant(), player, old(work).rules),
        final(moves).len() == old(moves).len(),
        r matches Some(a) ==> final(moves).len() > 0 && a == spec_move_action(player, final(moves)@[0]),
        old(moves).len() > 0 ==> r is Some,
        ({
            let (bm, ms, t, kk) = spec_deepen(old(work).snap(), player, spec_max_depth(depth), personality, old(moves)@, 1, None, 0, old(tt)@, old(killers)@);
            &&& r == match bm { Some(m) => Some(spec_move_action(player, m)), None => None::<CrownfallPlayerAction> }
            &&& final(moves)@ == ms
            &&& final(tt)@ == t
            &&& final(killers)@ == kk
        }),
        depth <= 1 && r is Some ==> {
            let g = old(work).snap();
            let chosen = final(moves)@[0];
            &&& forall|j: int| 0 <= j < old(moves).len()
                ==> spec_child_score(g, player, #[trigger] old(moves)@[j], personality) <= spec_child_score(g, player, chosen, personality)
            &&& exists|s: int| 0 <= s < old(moves).len() && #[trigger] old(moves)@[s] == chosen
                && forall|j: int| 0 <= j < s ==> spec_child_score(g, player, #[trigger] old(moves)@[j], personality) < spec_child_score(g, player, chosen, personality)
        },
{
    let ghost w0 = *work;
    let ghost g = w0.snap();
    let ghost m0 = moves@;
    let ghost mut first_slot: int = 0;
    let undo = snapshot(work);
    let mut best: Option<CrownfallPlayerAction> = None;
    let mut previous_score: i32 = 0;
    let max_depth: u16 = if depth > 1 { depth as u16 } else { 1 };
    let mut iteration_depth: u16 = 1;
    let mut stop = false;
    let ghost n = moves.len();
    let ghost total = spec_deepen(g, player, spec_max_depth(depth), personality, moves@, 1, None, 0, tt@, killers@);
    let ghost mut best_m: Option<(u8, u8)> = None;
    while iteration_depth <= max_depth && !stop
        invariant
            max_depth == spec_max_depth(depth),
            !stop ==> spec_deepen(g, player, max_depth as int, personality, moves@, iteration_depth as int, best_m, previous_score as int, tt@, killers@) == total,
            stop ==> total == (best_m, moves@, tt@, killers@),
            best == match best_m { Some(m) => Some(spec_move_action(player, m)), None => None::<CrownfallPlayerAction> },
            spec_restored(work, &w0),
            spec_searchable(&w0),
            w0.state is Playing,
            w0.state->Playing_0.spec_player() == player,
            undo.board == w0.board,
            undo.state == w0.state,
            undo.moves_since_capture == w0.moves_since_capture,
            undo.history_len == w0.history@.len(),
            spec_move_set(moves@, w0.board@, w0.board.spec_variant(), player, w0.rules),
            moves.len() == n,
            1 <= iteration_depth <= max_depth + 1,
            1 <= max_depth <= 255,
            stop ==> n == 0,
            tt.len() == TT_SIZE,
            killers.len() == 2 * KILLER_PLIES,
            -EVAL_BOUND <= previous_score <= EVAL_BOUND,
            best matches Some(a) ==> n > 0 && a == spec_move_action(player, moves@[0]),
            iteration_depth > 1 && n > 0 ==> best is Some,
            g == w0.snap(),
            m0.len() == n,
            iteration_depth == 1 ==> moves@ == m0 && best is None,
            max_depth == 1 && best is Some ==> {
                &&& forall|j: int| 0 <= j < n
                    ==> spec_child_score(g, player, #[trigger] m0[j], personality) <= spec_child_score(g, player, moves@[0], personality)
                &&& 0 <= first_slot < n && m0[first_slot] == moves@[0]
                &&& forall|j: int| 0 <= j < first_slot ==> spec_child_score(g, player, #[trigger] m0[j], personality) < spec_child_score(g, player, moves@[0], personality)
            },
        decreases max_depth + 1 - iteration_depth,
    {
        proof {
            assert(work.snap() == g);
        }
        let ghost tt_in = tt@;
        let ghost kl_in = killers@;
        let ghost moves_in = moves@;
        let ghost prev_in = previous_score as int;
        let ghost best_in = best_m;
        let outcome = aspiration_pass(work, moves, player, iteration_depth as u8, personality, previous_score, tt, killers, &undo);
        let ghost pass = spec_deepening_pass(g, player, iteration_depth as u8, personality, moves_in, prev_in, tt_in, kl_in);
        match outcome {
            None => {
                // Every root move was rejected: deeper passes cannot differ.
                stop = true;
            },
            Some((slot, action, score)) => {
                best = Some(action);
                previous_score = score;
                let ghost before = moves@;
                move_to_front(moves, 0, slot);
                proof {
                    best_m = Some(before[slot as int]);
                    lemma_same_moves_keep_set(moves@, before, &w0, player);
                    if max_depth == 1 {
                        first_slot = slot as int;
                        assert forall|j: int| 0 <= j < n
                            implies spec_child_score(g, player, #[trigger] m0[j], personality) <= spec_child_score(g, player, moves@[0], personality) by {
                            assert(spec_score_known(g, player, before[j], 1));
                        }
                    }
                }
            },
        }
        iteration_depth = iteration_depth + 1;
    }
    best
}

/// The game as the search sees it: `game` itself, with the current position
/// recorded first when its history is still empty (the transposition table
/// keys off the newest history entry).
pub open spec fn spec_search_snap(game: &CrownfallGame, player: CrownfallPlayerKind) -> Snap {
    Snap {
        cells: game.board@,
        state: game.state,
        rules: game.rules,
        history: if game.history@.len() == 0 { seq![spec_position_hash(game.board@, player)] } else { game.history@ },
        msc: game.moves_since_capture,
    }
}

/// An empty transposition table.
pub open spec fn spec_fresh_table() -> Seq<TtEntry> {
    Seq::new(TT_SIZE as nat, |i: int| spec_tt_unset())
}

/// A killer list holding no moves yet.
pub open spec fn spec_fresh_killers() -> Seq<(u8, u8)> {
    Seq::new((2 * KILLER_PLIES) as nat, |i: int| (0u8, 0u8))
}

/// The AI's answer for `player` in `game` searched `depth` plies deep from
/// the transposition table `tt` and killer list `killers`, with the table
/// and killer list it leaves: no move in a finished game or out of turn;
/// otherwise iterative deepening over the listed moves (`spec_deepen`).
pub open spec fn spec_choose_move(game: &CrownfallGame, player: CrownfallPlayerKind, depth: u8, personality: CrownfallPersonality, tt: Seq<TtEntry>, killers: Seq<(u8, u8)>) -> (Option<CrownfallPlayerAction>, Seq<TtEntry>, Seq<(u8, u8)>) {
    if !(game.state is Playing && game.state->Playing_0.spec_player() == player) {
        (None, tt, killers)
    } else {
        let moves = spec_collect(game.board@, game.board.spec_variant(), player, game.rules, spec_enemy_crown(game.board@, player));
        let (bm, _, t, k) = spec_deepen(spec_search_snap(game, player), player, spec_max_depth(depth), personality, moves, 1, None, 0, tt, killers);
        (match bm { Some(m) => Some(spec_move_action(player, m)), None => None }, t, k)
    }
}

/// One ply deep, the move `from -> to` scores at least as well for
/// `player` as every other allowed step.
pub open spec fn spec_best_one_ply(game: &CrownfallGame, player: CrownfallPlayerKind, personality: CrownfallPersonality, from: CrownfallBoardCell, to: CrownfallBoardCell) -> bool {
    let g = spec_search_snap(game, player);
    forall|m: (u8, u8)| #[trigger] spec_allowed_step(game.board@, game.board.spec_variant(), player, game.rules, m)
        ==> spec_child_score(g, player, m, personality) <= spec_child_score(g, player, (from.index, to.index), personality)
}

/// Returns the best move for `player` in `game` within `depth` plies, or
/// `None` if `player` has no legal move: the move `spec_choose_move` picks
/// starting from an empty transposition table and killer list.
pub fn best_move(game: &CrownfallGame, player: CrownfallPlayerKind, depth: u8, personality: CrownfallPersonality) -> (r: Option<CrownfallPlayerAction>)
    requires
        spec_searchable(game),
    ensures
        r matches Some(a) ==> a.spec_player() == player && a is Move && spec_apply_action(game.snap(), a, true) is Ok,
        r is None ==> forall|from: CrownfallBoardCell, to: CrownfallBoardCell|
            !(#[trigger] spec_apply_action(game.snap(), CrownfallPlayerAction::Move { player, from, to }, true) is Ok),
        depth <= 1 ==> (r matches Some(CrownfallPlayerAction::Move { from, to, .. }) ==> spec_best_one_ply(game, player, personality, from, to)),
        r == spec_choose_move(game, player, depth, personality, spec_fresh_table(), spec_fresh_killers()).0,
{
    let mut searcher = CrownfallSearcher::new();
    searcher.best_move(game, player, depth, personality)
}

/// A reusable AI search: owns the transposition table and killer moves so
/// they carry over from one `best_move` call to the next. The cached
/// entries only mean something for the rules and personality they were
/// computed under, so a call under different ones clears them first.
pub struct CrownfallSearcher {
    tt: Vec<TtEntry>,
    killers: Vec<(u8, u8)>,
    context: Option<(CrownfallRules, CrownfallPersonality)>,
}

impl CrownfallSearcher {
    /// The table and killer list have their fixed sizes.
    pub closed spec fn wf(&self) -> bool {
        &&& self.tt.len() == TT_SIZE
        &&& self.killers.len() == 2 * KILLER_PLIES
    }

    /// The rules and personality the cached entries were computed under.
    pub closed spec fn context(&self) -> Option<(CrownfallRules, CrownfallPersonality)> {
        self.context
    }

    /// The transposition table carried between searches.
    pub closed spec fn table(&self) -> Seq<TtEntry> {
        self.tt@
    }

    /// The killer moves carried between searches.
    pub closed spec fn killer_moves(&self) -> Seq<(u8, u8)> {
        self.killers@
    }

    /// The table and killer list a search under `rules` and `personality`
    /// starts from: the carried ones when they were computed under the
    /// same, fresh ones otherwise.
    pub open spec fn spec_start_state(&self, rules: CrownfallRules, personality: CrownfallPersonality) -> (Seq<TtEntry>, Seq<(u8, u8)>) {
        if self.context() == Some((rules, personality)) {
            (self.table(), self.killer_moves())
        } else {
            (spec_fresh_table(), spec_fresh_killers())
        }
    }

    pub fn new() -> (r: CrownfallSearcher)
        ensures
            r.wf(),
            r.context() is None,
            r.table() == spec_fresh_table(),
            r.killer_moves() == spec_fresh_killers(),
    {
        let mut tt: Vec<TtEntry> = Vec::new();
        let mut i: usize = 0;
        while i < TT_SIZE
            invariant
                i <= TT_SIZE,
                tt.len() == i,
                forall|k: int| 0 <= k < i ==> #[trigger] tt@[k] == spec_tt_unset(),
            decreases TT_SIZE - i,
        {
            tt.push(tt_unset());
            i = i + 1;
        }
        let mut killers: Vec<(u8, u8)> = Vec::new();
        let mut j: usize = 0;
        while j < 2 * KILLER_PLIES
            invariant
                j <= 2 * KILLER_PLIES,
                killers.len() == j,
                forall|k: int| 0 <= k < j ==> #[trigger] killers@[k] == (0u8, 0u8),
            decreases 2 * KILLER_PLIES - j,
        {
            killers.push((0, 0));
            j = j + 1;
        }
        assert(tt@ =~= spec_fresh_table());
        assert(killers@ =~= spec_fresh_killers());
        CrownfallSearcher { tt, killers, context: None }
    }

    /// Clears the table and the killer moves, keeping the context.
    fn reset(&mut self)
        requires
            old(self).wf(),
        ensures
            final(self).wf(),
            final(self).context == old(self).context,
            forall|i: int| 0 <= i < TT_SIZE ==> #[trigger] final(self).tt@[i] == spec_tt_unset(),
            forall|j: int| 0 <= j < 2 * KILLER_PLIES ==> #[trigger] final(self).killers@[j] == (0u8, 0u8),
            final(self).table() == spec_fresh_table(),
            final(self).killer_moves() == spec_fresh_killers(),
    {
        let mut i: usize = 0;
        while i < self.tt.len()
            invariant
                self.tt.len() == TT_SIZE,
                self.killers.len() == 2 * KILLER_PLIES,
                self.context == old(self).context,
                i <= self.tt.len(),
                forall|k: int| 0 <= k < i ==> #[trigger] self.tt@[k] == spec_tt_unset(),
            decreases self.tt.len() - i,
        {
            self.tt[i] = tt_unset();
            i = i + 1;
        }
        let mut j: usize = 0;
        while j < self.killers.len()
            invariant
                self.tt.len() == TT_SIZE,
                self.killers.len() == 2 * KILLER_PLIES,
                self.context == old(self).context,
                j <= self.killers.len(),
                forall|k: int| 0 <= k < TT_SIZE ==> #[trigger] self.tt@[k] == spec_tt_unset(),
                forall|k: int| 0 <= k < j ==> #[trigger] self.killers@[k] == (0u8, 0u8),
            decreases self.killers.len() - j,
        {
            self.killers[j] = (0, 0);
            j = j + 1;
        }
        assert(self.tt@ =~= spec_fresh_table());
        assert(self.killers@ =~= spec_fresh_killers());
    }

    /// Same contract as the free `best_move`, carrying the transposition
    /// table and killer moves over from earlier calls.
    pub fn best_move(&mut self, game: &CrownfallGame, player: CrownfallPlayerKind, depth: u8, personality: CrownfallPersonality) -> (r: Option<CrownfallPlayerAction>)
        requires
            old(self).wf(),
            spec_searchable(game),
        ensures
            final(self).wf(),
            final(self).context() == Some((game.rules, personality)),
            r matches Some(a) ==> a.spec_player() == player && a is Move && spec_apply_action(game.snap(), a, true) is Ok,
            r is None ==> forall|from: CrownfallBoardCell, to: CrownfallBoardCell|
                !(#[trigger] spec_apply_action(game.snap(), CrownfallPlayerAction::Move { player, from, to }, true) is Ok),
            depth <= 1 ==> (r matches Some(CrownfallPlayerAction::Move { from, to, .. }) ==> spec_best_one_ply(game, player, personality, from, to)),
            ({
                let (tt0, kl0) = old(self).spec_start_state(game.rules, personality);
                let (a, t, kk) = spec_choose_move(game, player, depth, personality, tt0, kl0);
                &&& r == a
                &&& final(self).table() == t
                &&& final(self).killer_moves() == kk
            }),
    {
        let same_context = match self.context {
            Some((rules, p)) => rules == game.rules && p == personality,
            None => false,
        };
        if !same_context {
            self.reset();
            self.context = Some((game.rules, personality));
        }
        self.search(game, player, depth, personality)
    }

    fn search(&mut self, game: &CrownfallGame, player: CrownfallPlayerKind, depth: u8, personality: CrownfallPersonality) -> (r: Option<CrownfallPlayerAction>)
        requires
            old(self).wf(),
            spec_searchable(game),
        ensures
            final(self).wf(),
            final(self).context == old(self).context,
            r matches Some(a) ==> a.spec_player() == player && a is Move && spec_apply_action(game.snap(), a, true) is Ok,
            r is None ==> forall|from: CrownfallBoardCell, to: CrownfallBoardCell|
                !(#[trigger] spec_apply_action(game.snap(), CrownfallPlayerAction::Move { player, from, to }, true) is Ok),
            depth <= 1 ==> (r matches Some(CrownfallPlayerAction::Move { from, to, .. }) ==> spec_best_one_ply(game, player, personality, from, to)),
            ({
                let (a, t, kk) = spec_choose_move(game, player, depth, personality, old(self).table(), old(self).killer_moves());
                &&& r == a
                &&& final(self).table() == t
                &&& final(self).killer_moves() == kk
            }),
    {
        proof {
            game.board.lemma_len();
        }
        let to_move = match game.state {
            CrownfallGameState::Playing(ps) => ps.player() == player,
            _ => false,
        };
        if !to_move {
            // Every move is refused in a finished game or out of turn.
            proof {
                lemma_no_move_out_of_turn(game, player);
            }
            return None;
        }
        // The one copy of the whole search: every node below changes it in
        // place and rolls it back.
        let mut work = copy_game(game);
        // The transposition table keys off the newest history entry, so a
        // game without any gets its position hash seeded here.
        if work.history.len() == 0 {
            work.history.push(position_hash(&work.board, player));
        }
        let enemy_crown = crown_cell(&work.board, player.opposite());
        let mut moves = collect_moves(&work.board, player, work.rules, enemy_crown);
        proof {
            if moves.len() == 0 {
                lemma_no_move_unlisted(game, player, moves@);
            }
        }
        let ghost listed = moves@;
        proof {
            assert(work.history@ =~= spec_search_snap(game, player).history);
            assert(work.snap() == spec_search_snap(game, player));
        }
        let best = deepen(&mut work, &mut moves, player, depth, personality, &mut self.tt, &mut self.killers);
        proof {
            match best {
                Some(a) => {
                    lemma_listed_move_accepted(game, player, moves@, 0, true);
                    if depth <= 1 {
                        let g = spec_search_snap(game, player);
                        assert forall|m: (u8, u8)| #[trigger] spec_allowed_step(game.board@, game.board.spec_variant(), player, game.rules, m)
                            implies spec_child_score(g, player, m, personality) <= spec_child_score(g, player, moves@[0], personality) by {
                            assert(listed.contains(m));
                            let j = choose|j: int| 0 <= j < listed.len() && listed[j] == m;
                            assert(spec_child_score(g, player, listed[j], personality) <= spec_child_score(g, player, moves@[0], personality));
                        }
                    }
                },
                None => {},
            }
        }
        best
    }
}

} // verus!
