//! Properties of the rules that hold across every action.
use vstd::prelude::*;
use crate::engine::captures::{
    spec_capture_scan_cells, spec_check_own_crown_trap, spec_crown_capture_from,
    spec_has_available_capture, spec_is_step, spec_keep_empty, spec_piece_captures_upto,
    spec_archer_capture_at, spec_archer_captures_upto, spec_check_archer_capture, spec_first_ally_from,
    spec_archer_targets, spec_capture_targets, spec_cell_of, spec_check_crown_capture,
    spec_check_piece_captures, spec_check_self_spy_trap,
    spec_move_candidates, spec_moved, spec_owned, spec_preview, spec_step_captures,
    spec_valid_destinations, ArcherCapture, PieceCapture,
};
use crate::engine::geometry::{lemma_knight_shapes_on_board, lemma_move_findings_on_board, spec_capture_on_board};
use crate::engine::tables::{
    spec_archer_range, spec_forward, spec_forward_ok, spec_knight_diagonal_moves, spec_on_board, spec_ortho,
    spec_ortho_skip,
};
use crate::engine::movegen::lemma_push_fresh;
use crate::engine::errors::CrownfallError;
use crate::engine::hash::{spec_cells_hash, spec_position_hash, spec_side_key};
use crate::engine::rules::{
    spec_count, spec_piece_count, spec_next_key, spec_after_removal, spec_apply_action, spec_apply_archer_captures,
    spec_apply_knight_removal, spec_apply_move, spec_apply_piece_captures, spec_continue,
    spec_resolve_all, spec_resolve_sequential, Outcome, Snap,
};
use crate::engine::types::{
    spec_board_length, spec_cell_count, spec_x, spec_y, CrownfallBoardCell, CrownfallBoardVariant, CrownfallGameState,
    spec_player_index, CrownfallPiece, CrownfallPieceKind, CrownfallPlayerAction, CrownfallPlayerKind,
    CrownfallRules, CrownfallTurnResult,
};

verus! {

/// `h2` is `h`, or `h` with one more position recorded.
pub open spec fn spec_history_extends(h2: Seq<u32>, h: Seq<u32>) -> bool {
    &&& h.len() <= h2.len() <= h.len() + 1
    &&& h2.subrange(0, h.len() as int) == h
}

/// What every successful action by `player` leaves: the history grows by
/// at most one position, and if the game goes on it is the opponent's turn
/// with the no-progress counter below its limit.
pub open spec fn spec_outcome_follows(o: Outcome, g: Snap, player: CrownfallPlayerKind) -> bool {
    &&& spec_history_extends(o.history, g.history)
    &&& (o.history.len() > g.history.len() ==> o.history.last() == spec_next_key(g.cells, o.cells, g.history, player.spec_opposite()))
    &&& (o.state is Playing && o.history.len() > g.history.len() && o.history.len() <= 65536
        ==> o.history.len() - 1 < g.rules.board.spec_total_turn_limit())
    &&& (o.state is Playing ==> {
        &&& o.state->Playing_0.spec_player() == player.spec_opposite()
        &&& o.msc < g.rules.board.spec_no_progress_limit()
        &&& (o.result matches Some(CrownfallTurnResult::PieceMove { .. }) ==> o.msc == (g.msc + 1) as u16)
        &&& (o.result matches Some(CrownfallTurnResult::Capture { .. }) ==> o.msc == 0)
    })
}

proof fn lemma_continue(start: Seq<Option<CrownfallPiece>>, end: Seq<Option<CrownfallPiece>>, board: CrownfallBoardVariant, history: Seq<u32>, msc: u16, next: CrownfallPlayerKind, captured: bool)
    ensures
        ({
            let (s, h, m) = spec_continue(start, end, board, history, msc, next, captured);
            &&& spec_history_extends(h, history)
            &&& h.len() == history.len() + 1
            &&& h.last() == spec_next_key(start, end, history, next)
            &&& m == (if captured { 0 } else { (msc + 1) as u16 })
            &&& (s is Playing ==> s->Playing_0.spec_player() == next && m < board.spec_no_progress_limit())
            &&& (s is Playing && h.len() <= 65536 ==> h.len() - 1 < board.spec_total_turn_limit())
        }),
{
    let (s, h, m) = spec_continue(start, end, board, history, msc, next, captured);
    assert(h.subrange(0, history.len() as int) =~= history);
}

proof fn lemma_after_removal(g: Snap, end: Seq<Option<CrownfallPiece>>, player: CrownfallPlayerKind)
    ensures
        ({
            let (s, h, m) = spec_after_removal(g.cells, end, g.rules, g.history, g.msc, player);
            &&& spec_history_extends(h, g.history)
            &&& (h.len() > g.history.len() ==> h.last() == spec_next_key(g.cells, end, g.history, player.spec_opposite()))
            &&& (s is Playing ==> s->Playing_0.spec_player() == player.spec_opposite() && m < g.rules.board.spec_no_progress_limit() && m == 0)
            &&& (s is Playing && h.len() > g.history.len() && h.len() <= 65536 ==> h.len() - 1 < g.rules.board.spec_total_turn_limit())
        }),
{
    lemma_continue(g.cells, end, g.rules.board, g.history, g.msc, player.spec_opposite(), true);
    assert(g.history.subrange(0, g.history.len() as int) =~= g.history);
}

proof fn lemma_resolve_follows(g: Snap, s1: Seq<Option<CrownfallPiece>>, player: CrownfallPlayerKind, from: int, to: int, piece: CrownfallPiece)
    ensures
        spec_outcome_follows(spec_resolve_sequential(g, s1, player, from, to, piece), g, player),
        spec_outcome_follows(spec_resolve_all(g, s1, player, from, to, piece), g, player),
{
    assert(g.history.subrange(0, g.history.len() as int) =~= g.history);
    lemma_continue(g.cells, s1, g.rules.board, g.history, g.msc, player.spec_opposite(), false);
    let v = g.rules.board;
    let rules = g.rules;
    // Every removal branch funnels into the same end-of-turn resolution; only
    // the board it is handed differs.
    assert forall|end: Seq<Option<CrownfallPiece>>| #![trigger spec_after_removal(g.cells, end, rules, g.history, g.msc, player)]
        ({
            let (s, h, m) = spec_after_removal(g.cells, end, rules, g.history, g.msc, player);
            &&& spec_history_extends(h, g.history)
            &&& (h.len() > g.history.len() ==> h.last() == spec_next_key(g.cells, end, g.history, player.spec_opposite()))
            &&& (s is Playing ==> s->Playing_0.spec_player() == player.spec_opposite() && m < v.spec_no_progress_limit() && m == 0)
            &&& (s is Playing && h.len() > g.history.len() && h.len() <= 65536 ==> h.len() - 1 < v.spec_total_turn_limit())
        }) by {
        lemma_after_removal(g, end, player);
    }
}

/// Law: every successful action hands the turn to the opponent (when the
/// game goes on), records at most one new position, and keeps the
/// no-progress counter below its limit and the turns played below the turn
/// limit while play continues (the turn count is kept in 16 bits, so the
/// latter is stated for histories of at most 2^16 positions).
pub proof fn lemma_action_follows(g: Snap, action: CrownfallPlayerAction, validate: bool)
    ensures
        spec_apply_action(g, action, validate) matches Ok(o) ==> spec_outcome_follows(o, g, action.spec_player()),
{
    assert(g.history.subrange(0, g.history.len() as int) =~= g.history);
    match action {
        CrownfallPlayerAction::Move { player, from, to } => {
            let f = from.index as int;
            let t = to.index as int;
            if spec_apply_move(g, player, f, t, validate) is Ok {
                let piece = g.cells[f].unwrap();
                let s1 = spec_moved(g.cells, f, t, piece);
                lemma_resolve_follows(g, s1, player, f, t, piece);
                if spec_check_own_crown_trap(s1, g.rules.board, t, player, g.rules) {
                } else if g.rules.ruleset.spec_all_captures_processed() {
                    assert(spec_apply_move(g, player, f, t, validate) == Ok::<Outcome, CrownfallError>(spec_resolve_all(g, s1, player, f, t, piece)));
                } else {
                    assert(spec_apply_move(g, player, f, t, validate) == Ok::<Outcome, CrownfallError>(spec_resolve_sequential(g, s1, player, f, t, piece)));
                }
            }
        },
        CrownfallPlayerAction::KnightRemoval { player, at } => {
            let i = at.index as int;
            if spec_apply_knight_removal(g, player, i) is Ok {
                lemma_continue(g.cells, g.cells.update(i, None), g.rules.board, g.history, g.msc, player.spec_opposite(), true);
            }
        },
        CrownfallPlayerAction::Surrender { player } => {},
    }
}

/// The key recorded after a move is the full hash of the position reached,
/// provided the previous entry was the full hash of the position before.
proof fn lemma_next_key(start: Seq<Option<CrownfallPiece>>, end: Seq<Option<CrownfallPiece>>, history: Seq<u32>, mover: CrownfallPlayerKind)
    requires
        history.len() > 0 ==> history.last() == spec_position_hash(start, mover),
    ensures
        spec_next_key(start, end, history, mover.spec_opposite()) == spec_position_hash(end, mover.spec_opposite()),
{
    if history.len() > 0 {
        let hs = spec_cells_hash(start, start.len() as int);
        let he = spec_cells_hash(end, end.len() as int);
        let sk = spec_side_key();
        match mover {
            CrownfallPlayerKind::White => {
                assert(((hs ^ 0u32) ^ (hs ^ he)) ^ sk == he ^ sk) by (bit_vector);
            },
            CrownfallPlayerKind::Black => {
                assert(((hs ^ sk) ^ (hs ^ he)) ^ sk == he ^ 0u32) by (bit_vector);
            },
        }
    }
}

/// Law: the position key an action records equals the full hash of the
/// position it reaches (board and player to move), whenever the newest key
/// before the action was the full hash of the position then. So keeping
/// the history incrementally never drifts from a full recompute.
pub proof fn lemma_action_hash(g: Snap, action: CrownfallPlayerAction, validate: bool)
    requires
        g.state is Playing,
        g.history.len() > 0 ==> g.history.last() == spec_position_hash(g.cells, action.spec_player()),
    ensures
        spec_apply_action(g, action, validate) matches Ok(o) ==> (o.history.len() > g.history.len()
            ==> o.history.last() == spec_position_hash(o.cells, action.spec_player().spec_opposite())),
{
    lemma_action_follows(g, action, validate);
    if spec_apply_action(g, action, validate) is Ok {
        let o = spec_apply_action(g, action, validate).unwrap();
        lemma_next_key(g.cells, o.cells, g.history, action.spec_player());
    }
}

/// Law: a move is accepted exactly when it is the mover's turn, the piece
/// at `from` is theirs, `to` is an empty cell of that piece's movement
/// shape, and (when mandatory capture is checked) the move captures or no
/// capturing move exists.
pub proof fn lemma_move_accepted(g: Snap, player: CrownfallPlayerKind, from: CrownfallBoardCell, to: CrownfallBoardCell, validate: bool)
    requires
        g.cells.len() == spec_cell_count(g.rules.board),
    ensures
        spec_apply_action(g, CrownfallPlayerAction::Move { player, from, to }, validate) is Ok <==> {
            let f = from.index as int;
            let t = to.index as int;
            let v = g.rules.board;
            &&& g.state is Playing
            &&& g.state->Playing_0.spec_player() == player
            &&& t < spec_cell_count(v)
            &&& spec_is_step(g.cells, v, f, t, g.rules)
            &&& spec_owned(g.cells[f], player)
            &&& (validate && g.rules.ruleset.spec_mandatory_capture() && spec_has_available_capture(g.cells, v, player, g.rules)
                ==> spec_step_captures(g.cells, v, f, t, player, g.rules))
        },
{
}

/// Resolving ordinary captures only ever empties cells: what was empty
/// stays empty, and each resolved target ends up empty.
proof fn lemma_piece_captures_clear(cells: Seq<Option<CrownfallPiece>>, v: CrownfallBoardVariant, caps: Seq<PieceCapture>, n: int, player: CrownfallPlayerKind, to: int, mover: CrownfallPieceKind, rules: CrownfallRules)
    requires
        cells.len() == spec_cell_count(v),
        0 <= to < spec_cell_count(v),
        0 <= n <= caps.len(),
        forall|k: int| 0 <= k < caps.len() ==> spec_capture_on_board(v, #[trigger] caps[k]),
    ensures
        spec_apply_piece_captures(cells, v, caps, n, player, to, mover, rules).len() == cells.len(),
        forall|i: int| 0 <= i < cells.len() && cells[i] is None
            ==> (#[trigger] spec_apply_piece_captures(cells, v, caps, n, player, to, mover, rules)[i]) is None,
        forall|k: int| 0 <= k < n
            ==> spec_apply_piece_captures(cells, v, caps, n, player, to, mover, rules)[(#[trigger] caps[k]).target as int] is None,
    decreases n,
{
    if n > 0 {
        lemma_piece_captures_clear(cells, v, caps, n - 1, player, to, mover, rules);
        assert(spec_capture_on_board(v, caps[n - 1]));
    }
}

/// Resolving Archer shots only ever empties cells, each target included.
proof fn lemma_archer_captures_clear(cells: Seq<Option<CrownfallPiece>>, v: CrownfallBoardVariant, acs: Seq<ArcherCapture>, n: int)
    requires
        cells.len() == spec_cell_count(v),
        0 <= n <= acs.len(),
        forall|k: int| 0 <= k < acs.len() ==> (#[trigger] acs[k]).target < spec_cell_count(v),
    ensures
        spec_apply_archer_captures(cells, acs, n).len() == cells.len(),
        forall|i: int| 0 <= i < cells.len() && cells[i] is None ==> (#[trigger] spec_apply_archer_captures(cells, acs, n)[i]) is None,
        forall|k: int| 0 <= k < n ==> spec_apply_archer_captures(cells, acs, n)[(#[trigger] acs[k]).target as int] is None,
    decreases n,
{
    if n > 0 {
        lemma_archer_captures_clear(cells, v, acs, n - 1);
        assert(acs[n - 1].target < spec_cell_count(v));
    }
}

/// Resolving ordinary captures empties no cell outside the targets but the
/// capturing side's own: the mover at `to` and the partner of each pair
/// (both held by `player` on `base`).
proof fn lemma_piece_captures_clear_only_targets(cells: Seq<Option<CrownfallPiece>>, base: Seq<Option<CrownfallPiece>>, v: CrownfallBoardVariant, caps: Seq<PieceCapture>, n: int, player: CrownfallPlayerKind, to: int, mover: CrownfallPieceKind, rules: CrownfallRules)
    requires
        cells.len() == spec_cell_count(v),
        0 <= to < spec_cell_count(v),
        0 <= n <= caps.len(),
        forall|k: int| 0 <= k < caps.len() ==> spec_capture_on_board(v, #[trigger] caps[k]),
        forall|k: int| 0 <= k < caps.len() ==> (#[trigger] caps[k]).pair.first == to && spec_owned(base[caps[k].pair.second as int], player),
        spec_owned(base[to], player),
    ensures
        forall|i: int| 0 <= i < cells.len() && !spec_owned(base[i], player)
            && (#[trigger] spec_apply_piece_captures(cells, v, caps, n, player, to, mover, rules)[i]) is None
            ==> cells[i] is None || exists|k: int| 0 <= k < n && (#[trigger] caps[k]).target == i,
    decreases n,
{
    if n > 0 {
        lemma_piece_captures_clear_only_targets(cells, base, v, caps, n - 1, player, to, mover, rules);
        lemma_piece_captures_clear(cells, v, caps, n - 1, player, to, mover, rules);
        assert(spec_capture_on_board(v, caps[n - 1]));
        let prev = spec_apply_piece_captures(cells, v, caps, n - 1, player, to, mover, rules);
        let cur = spec_apply_piece_captures(cells, v, caps, n, player, to, mover, rules);
        assert forall|i: int| 0 <= i < cells.len() && !spec_owned(base[i], player) && #[trigger] cur[i] is None
            implies cells[i] is None || exists|k: int| 0 <= k < n && (#[trigger] caps[k]).target == i by {
            assert(i != to);
            assert(i != caps[n - 1].pair.second);
            if i == caps[n - 1].target {
                assert(caps[n - 1].target == i);
            } else {
                assert(prev[i] is None);
                if cells[i] is Some {
                    let k = choose|k: int| 0 <= k < n - 1 && (#[trigger] caps[k]).target == i;
                    assert(caps[k].target == i);
                }
            }
        }
    }
}

/// Archer shots empty no cell but their targets.
proof fn lemma_archer_captures_clear_only_targets(cells: Seq<Option<CrownfallPiece>>, acs: Seq<ArcherCapture>, n: int)
    requires
        0 <= n <= acs.len(),
        forall|k: int| 0 <= k < acs.len() ==> (#[trigger] acs[k]).target < cells.len(),
    ensures
        spec_apply_archer_captures(cells, acs, n).len() == cells.len(),
        forall|i: int| 0 <= i < cells.len() && (#[trigger] spec_apply_archer_captures(cells, acs, n)[i]) is None
            ==> cells[i] is None || exists|k: int| 0 <= k < n && (#[trigger] acs[k]).target == i,
    decreases n,
{
    if n > 0 {
        lemma_archer_captures_clear_only_targets(cells, acs, n - 1);
        let prev = spec_apply_archer_captures(cells, acs, n - 1);
        assert(acs[n - 1].target < cells.len());
        assert forall|i: int| 0 <= i < cells.len() && (#[trigger] spec_apply_archer_captures(cells, acs, n)[i]) is None
            implies cells[i] is None || exists|k: int| 0 <= k < n && (#[trigger] acs[k]).target == i by {
            if acs[n - 1].target == i {
                assert(acs[n - 1].target == i);
            } else {
                assert(prev[i] is None);
                if cells[i] is Some {
                    let k = choose|k: int| 0 <= k < n - 1 && (#[trigger] acs[k]).target == i;
                    assert(acs[k].target == i);
                }
            }
        }
    }
}

/// Law: the capture preview of a step agrees with making it. The preview
/// exists exactly when the move would be accepted (mandatory capture
/// aside); and once the move is made, every cell the preview lists as
/// captured is empty, and so is the destination when the preview says the
/// moving piece is lost.
#[verifier::rlimit(50)]
pub proof fn lemma_preview_agrees_with_move(g: Snap, player: CrownfallPlayerKind, from: CrownfallBoardCell, to: CrownfallBoardCell, validate: bool)
    requires
        g.cells.len() == spec_cell_count(g.rules.board),
        from.index < spec_cell_count(g.rules.board),
        to.index < spec_cell_count(g.rules.board),
        g.state is Playing,
        g.state->Playing_0.spec_player() == player,
        spec_owned(g.cells[from.index as int], player),
    ensures
        spec_preview(g.cells, g.rules.board, from.index as int, to.index as int, g.rules) is None
            <==> spec_apply_action(g, CrownfallPlayerAction::Move { player, from, to }, false) is Err,
        match (
            spec_preview(g.cells, g.rules.board, from.index as int, to.index as int, g.rules),
            spec_apply_action(g, CrownfallPlayerAction::Move { player, from, to }, validate),
        ) {
            (Some((captured, lost)), Ok(o)) => {
                &&& forall|k: int| 0 <= k < captured.len() ==> o.cells[(#[trigger] captured[k]).index as int] is None
                &&& lost ==> o.cells[to.index as int] is None
            },
            _ => true,
        },
{
    let v = g.rules.board;
    let rules = g.rules;
    let f = from.index as int;
    let t = to.index as int;
    let piece = g.cells[f].unwrap();
    let s1 = spec_moved(g.cells, f, t, piece);
    lemma_move_findings_on_board(s1, v, t, player, rules);
    let pcs = crate::engine::captures::spec_check_piece_captures(s1, v, t, player, rules);
    let acs = crate::engine::captures::spec_check_archer_capture(s1, v, t, player);
    lemma_piece_captures_clear(s1, v, pcs, pcs.len() as int, player, t, piece.spec_kind(), rules);
    let crown = crate::engine::captures::spec_check_crown_capture(s1, v, t, player, rules);
    let trapped = crate::engine::captures::spec_check_self_spy_trap(s1, v, t, player, rules);
    let b1 = match crown { Some(c) => s1.update(c, None), None => s1 };
    let b2 = if trapped { b1.update(t, None) } else { b1 };
    lemma_piece_captures_clear(b2, v, pcs, pcs.len() as int, player, t, piece.spec_kind(), rules);
    let b3 = if pcs.len() > 0 {
        spec_apply_piece_captures(b2, v, pcs, pcs.len() as int, player, t, piece.spec_kind(), rules)
    } else {
        b2
    };
    lemma_archer_captures_clear(s1, v, acs, acs.len() as int);
    lemma_archer_captures_clear(b3, v, acs, acs.len() as int);
}

/// The cells `spec_keep_empty` keeps from the first `n` entries of an
/// on-board list are exactly its empty ones.
proof fn lemma_keep_empty_contains(cells: Seq<Option<CrownfallPiece>>, v: CrownfallBoardVariant, s: Seq<int>, n: int, t: int)
    requires
        spec_on_board(v, s),
        0 <= n <= s.len(),
        0 <= t < spec_cell_count(v),
    ensures
        spec_keep_empty(cells, s, n).contains(CrownfallBoardCell { index: t as u8 })
            <==> (cells[t].is_none() && exists|k: int| 0 <= k < n && #[trigger] s[k] == t),
    decreases n,
{
    let c = CrownfallBoardCell { index: t as u8 };
    if n > 0 {
        lemma_keep_empty_contains(cells, v, s, n - 1, t);
        let prev = spec_keep_empty(cells, s, n - 1);
        let cur = spec_keep_empty(cells, s, n);
        let last = s[n - 1];
        assert(0 <= last < spec_cell_count(v));
        if cells[last].is_none() {
            assert(cur == prev.push(CrownfallBoardCell { index: last as u8 }));
            if cur.contains(c) {
                let i = choose|i: int| 0 <= i < cur.len() && cur[i] == c;
                if i < prev.len() {
                    assert(prev[i] == c);
                } else {
                    assert(last as u8 == t as u8);
                    assert(s[n - 1] == t);
                }
            }
            if cells[t].is_none() && exists|k: int| 0 <= k < n && #[trigger] s[k] == t {
                let k = choose|k: int| 0 <= k < n && #[trigger] s[k] == t;
                if k < n - 1 {
                    assert(prev.contains(c));
                    let i = choose|i: int| 0 <= i < prev.len() && prev[i] == c;
                    assert(cur[i] == c);
                } else {
                    assert(cur[cur.len() - 1] == c);
                }
            }
        } else {
            if exists|k: int| 0 <= k < n && #[trigger] s[k] == t {
                let k = choose|k: int| 0 <= k < n && #[trigger] s[k] == t;
                if cells[t].is_none() {
                    assert(k != n - 1);
                }
            }
        }
    }
}

/// Law: a step has a capture preview exactly when its destination is one
/// of the piece's valid destinations; there is none when `from` is empty,
/// `to` is occupied, or `to` lies outside the piece's movement shape.
pub proof fn lemma_preview_iff_valid_destination(cells: Seq<Option<CrownfallPiece>>, v: CrownfallBoardVariant, from: CrownfallBoardCell, to: CrownfallBoardCell, rules: CrownfallRules)
    requires
        cells.len() == spec_cell_count(v),
        from.index < spec_cell_count(v),
        to.index < spec_cell_count(v),
    ensures
        spec_preview(cells, v, from.index as int, to.index as int, rules) is None
            <==> !spec_valid_destinations(cells, v, from.index as int, rules).contains(to),
{
    let f = from.index as int;
    let t = to.index as int;
    let cands = spec_move_candidates(cells, v, f, rules);
    if cells[f] is Some {
        lemma_knight_shapes_on_board(v, cells[f].unwrap().spec_player(), f, rules);
    }
    assert(spec_on_board(v, cands));
    lemma_keep_empty_contains(cells, v, cands, cands.len() as int, t);
    assert(CrownfallBoardCell { index: t as u8 } == to);
    if cands.contains(t) {
        let k = choose|k: int| 0 <= k < cands.len() && cands[k] == t;
        assert(cands[k] == t);
    }
}

/// Two rule sets that agree on everything a capture depends on: they may
/// differ in the mandatory-capture rule (and the board size they name).
pub open spec fn spec_same_capture_rules(r1: CrownfallRules, r2: CrownfallRules) -> bool {
    &&& r1.ruleset.spec_all_captures_processed() == r2.ruleset.spec_all_captures_processed()
    &&& r1.ruleset.spec_knights_move_diagonally() == r2.ruleset.spec_knights_move_diagonally()
    &&& r1.ruleset.spec_knight_mass_capture() == r2.ruleset.spec_knight_mass_capture()
}

proof fn lemma_crown_from_same_rules(cells: Seq<Option<CrownfallPiece>>, v: CrownfallBoardVariant, scan: Seq<int>, k: int, to: int, attacker: CrownfallPlayerKind, r1: CrownfallRules, r2: CrownfallRules)
    requires
        spec_same_capture_rules(r1, r2),
    ensures
        spec_crown_capture_from(cells, v, scan, k, to, attacker, r1) == spec_crown_capture_from(cells, v, scan, k, to, attacker, r2),
    decreases scan.len() - k,
{
    if 0 <= k < scan.len() {
        lemma_crown_from_same_rules(cells, v, scan, k + 1, to, attacker, r1, r2);
    }
}

proof fn lemma_piece_captures_same_rules(cells: Seq<Option<CrownfallPiece>>, v: CrownfallBoardVariant, scan: Seq<int>, n: int, to: int, attacker: CrownfallPlayerKind, r1: CrownfallRules, r2: CrownfallRules)
    requires
        spec_same_capture_rules(r1, r2),
    ensures
        spec_piece_captures_upto(cells, v, scan, n, to, attacker, r1) == spec_piece_captures_upto(cells, v, scan, n, to, attacker, r2),
    decreases n,
{
    if n > 0 {
        lemma_piece_captures_same_rules(cells, v, scan, n - 1, to, attacker, r1, r2);
    }
}

/// Law: the capture preview never depends on the mandatory-capture rule:
/// two rule sets that differ only there preview every step alike.
pub proof fn lemma_preview_ignores_mandatory_capture(cells: Seq<Option<CrownfallPiece>>, v: CrownfallBoardVariant, from: int, to: int, r1: CrownfallRules, r2: CrownfallRules)
    requires
        spec_same_capture_rules(r1, r2),
    ensures
        spec_preview(cells, v, from, to, r1) == spec_preview(cells, v, from, to, r2),
{
    if cells[from] is Some {
        let piece = cells[from].unwrap();
        let player = piece.spec_player();
        let st = spec_moved(cells, from, to, piece);
        let scan = spec_capture_scan_cells(st, v, to, player, r1);
        assert(scan == spec_capture_scan_cells(st, v, to, player, r2));
        lemma_crown_from_same_rules(st, v, scan, 0, to, player, r1, r2);
        lemma_piece_captures_same_rules(st, v, scan, scan.len() as int, to, player, r1, r2);
        assert(spec_move_candidates(cells, v, from, r1) == spec_move_candidates(cells, v, from, r2));
    }
}

/// `c` holds an enemy piece that an Archer of `attacker` can shoot: any
/// kind but a Crown.
pub open spec fn spec_archer_target(cells: Seq<Option<CrownfallPiece>>, c: int, attacker: CrownfallPlayerKind) -> bool {
    &&& cells[c] is Some
    &&& cells[c].unwrap().spec_player() != attacker
    &&& cells[c].unwrap().spec_kind() != CrownfallPieceKind::Crown
}

/// `a` holds a piece of `attacker` that can cover an Archer's shot: any
/// kind but another Archer.
pub open spec fn spec_archer_cover(cells: Seq<Option<CrownfallPiece>>, a: int, attacker: CrownfallPlayerKind) -> bool {
    &&& cells[a] is Some
    &&& cells[a].unwrap().spec_player() == attacker
    &&& cells[a].unwrap().spec_kind() != CrownfallPieceKind::Archer
}

proof fn lemma_first_ally_found(cells: Seq<Option<CrownfallPiece>>, o: Seq<int>, k: int, attacker: CrownfallPlayerKind)
    requires
        0 <= k,
    ensures
        spec_first_ally_from(cells, o, k, attacker) is Some
            <==> exists|j: int| k <= j < o.len() && spec_archer_cover(cells, #[trigger] o[j], attacker),
    decreases o.len() - k,
{
    if k < o.len() {
        lemma_first_ally_found(cells, o, k + 1, attacker);
        if exists|j: int| k <= j < o.len() && spec_archer_cover(cells, #[trigger] o[j], attacker) {
            let j = choose|j: int| k <= j < o.len() && spec_archer_cover(cells, #[trigger] o[j], attacker);
            if j > k && !spec_archer_cover(cells, o[k], attacker) {
                assert(spec_archer_cover(cells, o[j], attacker));
            }
        }
    }
}

proof fn lemma_archer_upto_targets(cells: Seq<Option<CrownfallPiece>>, v: CrownfallBoardVariant, range: Seq<int>, n: int, attacker: CrownfallPlayerKind, c: int)
    requires
        spec_on_board(v, range),
        0 <= n <= range.len(),
        0 <= c < spec_cell_count(v),
    ensures
        (exists|i: int| 0 <= i < spec_archer_captures_upto(cells, v, range, n, attacker).len()
            && #[trigger] spec_archer_captures_upto(cells, v, range, n, attacker)[i].target == c)
        <==> (exists|m: int| 0 <= m < n && #[trigger] range[m] == c) && spec_archer_target(cells, c, attacker)
            && exists|j: int| 0 <= j < spec_ortho(v, c).len() && spec_archer_cover(cells, #[trigger] spec_ortho(v, c)[j], attacker),
    decreases n,
{
    if n > 0 {
        lemma_archer_upto_targets(cells, v, range, n - 1, attacker, c);
        let prev = spec_archer_captures_upto(cells, v, range, n - 1, attacker);
        let cur = spec_archer_captures_upto(cells, v, range, n, attacker);
        let r = range[n - 1];
        assert(0 <= r < spec_cell_count(v));
        lemma_first_ally_found(cells, spec_ortho(v, r), 0, attacker);
        lemma_first_ally_found(cells, spec_ortho(v, c), 0, attacker);
        match spec_archer_capture_at(cells, v, r, attacker) {
            Some(ac) => {
                assert(cur == prev.push(ac));
                assert(ac.target == r);
                if exists|i: int| 0 <= i < cur.len() && #[trigger] cur[i].target == c {
                    let i = choose|i: int| 0 <= i < cur.len() && #[trigger] cur[i].target == c;
                    if i < prev.len() {
                        assert(prev[i].target == c);
                    } else {
                        assert(range[n - 1] == c);
                    }
                }
                if (exists|m: int| 0 <= m < n && #[trigger] range[m] == c) && spec_archer_target(cells, c, attacker)
                    && exists|j: int| 0 <= j < spec_ortho(v, c).len() && spec_archer_cover(cells, #[trigger] spec_ortho(v, c)[j], attacker) {
                    let m = choose|m: int| 0 <= m < n && #[trigger] range[m] == c;
                    if m < n - 1 {
                        let i = choose|i: int| 0 <= i < prev.len() && #[trigger] prev[i].target == c;
                        assert(cur[i].target == c);
                    } else {
                        assert(cur[cur.len() - 1].target == c);
                    }
                }
            },
            None => {
                assert(cur == prev);
                if (exists|m: int| 0 <= m < n && #[trigger] range[m] == c) && spec_archer_target(cells, c, attacker)
                    && exists|j: int| 0 <= j < spec_ortho(v, c).len() && spec_archer_cover(cells, #[trigger] spec_ortho(v, c)[j], attacker) {
                    let m = choose|m: int| 0 <= m < n && #[trigger] range[m] == c;
                    if m == n - 1 {
                        assert(spec_first_ally_from(cells, spec_ortho(v, c), 0, attacker) is Some);
                        assert(false);
                    }
                }
            },
        }
    }
}

/// Law: an Archer that has just moved to `to` shoots exactly the enemy
/// pieces (never a Crown) two orthogonal tiles away that have a piece of
/// its own side, other than an Archer, orthogonally beside them.
pub proof fn lemma_archer_shot_targets(cells: Seq<Option<CrownfallPiece>>, v: CrownfallBoardVariant, to: int, attacker: CrownfallPlayerKind, c: int)
    requires
        0 <= to < spec_cell_count(v),
        0 <= c < spec_cell_count(v),
    ensures
        (exists|i: int| 0 <= i < spec_check_archer_capture(cells, v, to, attacker).len()
            && #[trigger] spec_check_archer_capture(cells, v, to, attacker)[i].target == c)
        <==> spec_archer_range(v, to).contains(c) && spec_archer_target(cells, c, attacker)
            && exists|j: int| 0 <= j < spec_ortho(v, c).len() && spec_archer_cover(cells, #[trigger] spec_ortho(v, c)[j], attacker),
{
    let range = spec_archer_range(v, to);
    lemma_knight_shapes_on_board(v, attacker, to, CrownfallRules { board: v, ruleset: crate::engine::types::CrownfallRuleset::Archers });
    lemma_archer_upto_targets(cells, v, range, range.len() as int, attacker, c);
    let acs = spec_check_archer_capture(cells, v, to, attacker);
    assert(acs == spec_archer_captures_upto(cells, v, range, range.len() as int, attacker));
    if exists|i: int| 0 <= i < acs.len() && #[trigger] acs[i].target == c {
        let i = choose|i: int| 0 <= i < acs.len() && #[trigger] acs[i].target == c;
        assert(spec_archer_captures_upto(cells, v, range, range.len() as int, attacker)[i].target == c);
        let m = choose|m: int| 0 <= m < range.len() && #[trigger] range[m] == c;
        assert(range.contains(c));
    }
    if range.contains(c) && spec_archer_target(cells, c, attacker)
        && exists|j: int| 0 <= j < spec_ortho(v, c).len() && spec_archer_cover(cells, #[trigger] spec_ortho(v, c)[j], attacker) {
        let m = choose|m: int| 0 <= m < range.len() && range[m] == c;
        assert(range[m] == c);
        let i = choose|i: int| 0 <= i < spec_archer_captures_upto(cells, v, range, range.len() as int, attacker).len()
            && #[trigger] spec_archer_captures_upto(cells, v, range, range.len() as int, attacker)[i].target == c;
        assert(acs[i].target == c);
    }
}

/// Law: the capture preview names every enemy piece the move removes: once
/// the previewed move is made, an enemy piece gone from the board is one
/// the preview listed.
#[verifier::rlimit(100)]
pub proof fn lemma_preview_lists_every_capture(g: Snap, player: CrownfallPlayerKind, from: CrownfallBoardCell, to: CrownfallBoardCell, validate: bool, c: int)
    requires
        g.cells.len() == spec_cell_count(g.rules.board),
        from.index < spec_cell_count(g.rules.board),
        to.index < spec_cell_count(g.rules.board),
        0 <= c < spec_cell_count(g.rules.board),
        g.state is Playing,
        g.state->Playing_0.spec_player() == player,
        spec_owned(g.cells[from.index as int], player),
    ensures
        match (
            spec_preview(g.cells, g.rules.board, from.index as int, to.index as int, g.rules),
            spec_apply_action(g, CrownfallPlayerAction::Move { player, from, to }, validate),
        ) {
            (Some((captured, _)), Ok(o)) => g.cells[c] is Some && g.cells[c].unwrap().spec_player() != player && o.cells[c] is None
                ==> captured.contains(spec_cell_of(c)),
            _ => true,
        },
{
    let v = g.rules.board;
    let rules = g.rules;
    let f = from.index as int;
    let t = to.index as int;
    let piece = g.cells[f].unwrap();
    let s1 = spec_moved(g.cells, f, t, piece);
    let pv = spec_preview(g.cells, v, f, t, rules);
    let res = spec_apply_action(g, CrownfallPlayerAction::Move { player, from, to }, validate);
    if pv is Some && res is Ok && g.cells[c] is Some && g.cells[c].unwrap().spec_player() != player {
        let o = res.unwrap();
        let captured = pv.unwrap().0;
        lemma_move_findings_on_board(s1, v, t, player, rules);
        let crown = spec_check_crown_capture(s1, v, t, player, rules);
        let trapped = spec_check_self_spy_trap(s1, v, t, player, rules);
        let pcs = spec_check_piece_captures(s1, v, t, player, rules);
        let acs = spec_check_archer_capture(s1, v, t, player);
        let acp = rules.ruleset.spec_all_captures_processed();
        assert(g.cells[t] is None);
        assert(c != f && c != t);
        assert(s1[c] == g.cells[c]);
        assert(!spec_owned(s1[c], player));
        assert(spec_owned(s1[t], player));
        let c1: Seq<CrownfallBoardCell> = match crown {
            Some(cc) => seq![spec_cell_of(cc)],
            None => Seq::empty(),
        };
        let c2 = c1 + spec_capture_targets(pcs);
        // Where in the lists `c` shows up, if it is a target.
        assert forall|k: int| 0 <= k < pcs.len() && (#[trigger] pcs[k]).target == c implies c2.contains(spec_cell_of(c)) by {
            assert(c2[c1.len() + k] == spec_cell_of(pcs[k].target as int));
        }
        assert forall|k: int| 0 <= k < acs.len() && (#[trigger] acs[k]).target == c
            implies (c2 + spec_archer_targets(acs)).contains(spec_cell_of(c)) by {
            assert((c2 + spec_archer_targets(acs))[c2.len() + k] == spec_cell_of(acs[k].target as int));
        }
        assert forall|x: CrownfallBoardCell| c2.contains(x) implies (c2 + spec_archer_targets(acs)).contains(x) by {
            let i = choose|i: int| 0 <= i < c2.len() && c2[i] == x;
            assert((c2 + spec_archer_targets(acs))[i] == x);
        }
        if crown == Some(c) {
            assert(c2[0] == spec_cell_of(c));
            assert(c2.contains(spec_cell_of(c)));
            assert((c2 + spec_archer_targets(acs)).contains(spec_cell_of(c)));
        }
        let b1 = match crown { Some(cc) => s1.update(cc, None), None => s1 };
        let b2 = if trapped { b1.update(t, None) } else { b1 };
        lemma_piece_captures_clear(b2, v, pcs, pcs.len() as int, player, t, piece.spec_kind(), rules);
        lemma_piece_captures_clear_only_targets(b2, s1, v, pcs, pcs.len() as int, player, t, piece.spec_kind(), rules);
        lemma_piece_captures_clear(s1, v, pcs, pcs.len() as int, player, t, piece.spec_kind(), rules);
        lemma_piece_captures_clear_only_targets(s1, s1, v, pcs, pcs.len() as int, player, t, piece.spec_kind(), rules);
        let b3 = if pcs.len() > 0 {
            spec_apply_piece_captures(b2, v, pcs, pcs.len() as int, player, t, piece.spec_kind(), rules)
        } else {
            b2
        };
        lemma_archer_captures_clear_only_targets(b3, acs, acs.len() as int);
        lemma_archer_captures_clear_only_targets(s1, acs, acs.len() as int);
        let archer = piece.spec_kind() == CrownfallPieceKind::Archer;
        let acs_used = if archer { acs } else { Seq::<ArcherCapture>::empty() };
        if spec_check_own_crown_trap(s1, v, t, player, rules) {
            assert(o.cells == s1.update(t, None));
        } else if acp {
            assert(o == spec_resolve_all(g, s1, player, f, t, piece));
            assert(captured == if archer { c2 + spec_archer_targets(acs) } else { c2 });
            if o.cells[c] is None && crown != Some(c) {
                assert(b1[c] is Some);
                assert(b2[c] is Some);
                if b3[c] is Some {
                    assert(acs_used.len() > 0);
                    assert(o.cells == spec_apply_archer_captures(b3, acs_used, acs_used.len() as int));
                    let k = choose|k: int| 0 <= k < acs.len() && (#[trigger] acs[k]).target == c;
                    assert((c2 + spec_archer_targets(acs)).contains(spec_cell_of(c)));
                } else {
                    assert(pcs.len() > 0);
                    let k = choose|k: int| 0 <= k < pcs.len() && (#[trigger] pcs[k]).target == c;
                    assert(c2.contains(spec_cell_of(c)));
                }
                assert(captured.contains(spec_cell_of(c)));
            }
        } else {
            assert(o == spec_resolve_sequential(g, s1, player, f, t, piece));
            if o.cells[c] is None && crown != Some(c) {
                if crown is Some {
                    assert(o.cells == s1.update(crown.unwrap(), None));
                } else if trapped {
                    assert(o.cells == s1.update(t, None));
                } else if pcs.len() > 0 {
                    assert(captured == c2);
                    assert(o.cells == spec_apply_piece_captures(s1, v, pcs, pcs.len() as int, player, t, piece.spec_kind(), rules));
                    let k = choose|k: int| 0 <= k < pcs.len() && (#[trigger] pcs[k]).target == c;
                    assert(captured.contains(spec_cell_of(c)));
                } else if acs_used.len() > 0 {
                    assert(captured == c2 + spec_archer_targets(acs));
                    assert(o.cells == spec_apply_archer_captures(s1, acs, acs.len() as int));
                    let k = choose|k: int| 0 <= k < acs.len() && (#[trigger] acs[k]).target == c;
                    assert(captured.contains(spec_cell_of(c)));
                } else {
                    assert(o.cells == s1);
                }
            }
        }
    }
}

/// Law: outside the all-captures-processed variant, the preview says the
/// moving piece is lost exactly when the move's result is either the
/// opponent's victory around the destination (the mover's own Crown walked
/// into a trap) or a capture that removes the destination.
pub proof fn lemma_preview_mover_lost(g: Snap, player: CrownfallPlayerKind, from: CrownfallBoardCell, to: CrownfallBoardCell, validate: bool)
    requires
        g.cells.len() == spec_cell_count(g.rules.board),
        from.index < spec_cell_count(g.rules.board),
        to.index < spec_cell_count(g.rules.board),
        g.state is Playing,
        g.state->Playing_0.spec_player() == player,
        spec_owned(g.cells[from.index as int], player),
        !g.rules.ruleset.spec_all_captures_processed(),
    ensures
        match (
            spec_preview(g.cells, g.rules.board, from.index as int, to.index as int, g.rules),
            spec_apply_action(g, CrownfallPlayerAction::Move { player, from, to }, validate),
        ) {
            (Some((_, lost)), Ok(o)) => lost <==> {
                ||| o.result == Some(CrownfallTurnResult::Victory { player: player.spec_opposite(), surrounded_crown: to })
                ||| o.result matches Some(CrownfallTurnResult::Capture { removed, .. }) && removed == to
            },
            _ => true,
        },
{
    let v = g.rules.board;
    let rules = g.rules;
    let f = from.index as int;
    let t = to.index as int;
    let pv = spec_preview(g.cells, v, f, t, rules);
    let res = spec_apply_action(g, CrownfallPlayerAction::Move { player, from, to }, validate);
    if pv is Some && res is Ok {
        let piece = g.cells[f].unwrap();
        let s1 = spec_moved(g.cells, f, t, piece);
        let o = res.unwrap();
        lemma_move_findings_on_board(s1, v, t, player, rules);
        let crown = spec_check_crown_capture(s1, v, t, player, rules);
        let trapped = spec_check_self_spy_trap(s1, v, t, player, rules);
        let pcs = spec_check_piece_captures(s1, v, t, player, rules);
        let acs = spec_check_archer_capture(s1, v, t, player);
        assert(spec_owned(s1[t], player));
        assert(CrownfallBoardCell { index: t as u8 } == to);
        if spec_check_own_crown_trap(s1, v, t, player, rules) {
        } else {
            assert(o == spec_resolve_sequential(g, s1, player, f, t, piece));
            if crown is None && !trapped {
                if pcs.len() > 0 {
                    assert(pcs[0].target != t);
                    assert(pcs[0].target < 256);
                } else if piece.spec_kind() == CrownfallPieceKind::Archer && acs.len() > 0 {
                    assert(acs[0].target != t);
                    assert(acs[0].target < 256);
                }
            }
        }
    }
}

/// Law: every cell the capture preview lists holds, before the move, a
/// piece of the moving piece's opponent.
pub proof fn lemma_preview_lists_only_enemies(cells: Seq<Option<CrownfallPiece>>, v: CrownfallBoardVariant, from: int, to: int, rules: CrownfallRules)
    requires
        cells.len() == spec_cell_count(v),
        0 <= from < spec_cell_count(v),
        0 <= to < spec_cell_count(v),
    ensures
        spec_preview(cells, v, from, to, rules) matches Some((captured, _)) ==> forall|k: int| 0 <= k < captured.len()
            ==> cells[(#[trigger] captured[k]).index as int] is Some
                && cells[captured[k].index as int].unwrap().spec_player() != cells[from].unwrap().spec_player(),
{
    if spec_preview(cells, v, from, to, rules) is Some {
        let piece = cells[from].unwrap();
        let player = piece.spec_player();
        let s1 = spec_moved(cells, from, to, piece);
        lemma_move_findings_on_board(s1, v, to, player, rules);
        let crown = spec_check_crown_capture(s1, v, to, player, rules);
        let pcs = spec_check_piece_captures(s1, v, to, player, rules);
        let acs = spec_check_archer_capture(s1, v, to, player);
        let c1: Seq<CrownfallBoardCell> = match crown {
            Some(cc) => seq![spec_cell_of(cc)],
            None => Seq::empty(),
        };
        let c2 = c1 + spec_capture_targets(pcs);
        let c3 = c2 + spec_archer_targets(acs);
        assert(cells[to] is None);
        assert(s1[to] == Some(piece));
        // A cell the move leaves holding an enemy piece held it before.
        assert forall|i: int| 0 <= i < spec_cell_count(v) && s1[i] is Some && !spec_owned(s1[i], player)
            implies cells[i] is Some && cells[i].unwrap().spec_player() != player by {
            assert(i != to && i != from);
        }
        assert forall|k: int| 0 <= k < c3.len()
            implies cells[(#[trigger] c3[k]).index as int] is Some && cells[c3[k].index as int].unwrap().spec_player() != player by {
            if k < c1.len() {
                assert(c3[k] == spec_cell_of(crown.unwrap()));
            } else if k < c2.len() {
                let j = k - c1.len();
                assert(c3[k] == spec_cell_of(pcs[j].target as int));
                assert(pcs[j].target < 256);
            } else {
                let j = k - c2.len();
                assert(c3[k] == spec_cell_of(acs[j].target as int));
                assert(acs[j].target < 256);
            }
        }
        assert forall|k: int| 0 <= k < c2.len() implies #[trigger] c2[k] == c3[k] by {}
        assert forall|k: int| 0 <= k < c1.len() implies #[trigger] c1[k] == c3[k] by {}
    }
}

/// Law: the capture preview lists exactly the enemy pieces the previewed
/// move removes: a cell is listed exactly when it held a piece of the
/// opponent before the move and is empty after it.
pub proof fn lemma_preview_is_the_capture_set(g: Snap, player: CrownfallPlayerKind, from: CrownfallBoardCell, to: CrownfallBoardCell, validate: bool, c: int)
    requires
        g.cells.len() == spec_cell_count(g.rules.board),
        from.index < spec_cell_count(g.rules.board),
        to.index < spec_cell_count(g.rules.board),
        0 <= c < spec_cell_count(g.rules.board),
        g.state is Playing,
        g.state->Playing_0.spec_player() == player,
        spec_owned(g.cells[from.index as int], player),
    ensures
        match (
            spec_preview(g.cells, g.rules.board, from.index as int, to.index as int, g.rules),
            spec_apply_action(g, CrownfallPlayerAction::Move { player, from, to }, validate),
        ) {
            (Some((captured, _)), Ok(o)) => captured.contains(spec_cell_of(c))
                <==> (g.cells[c] is Some && g.cells[c].unwrap().spec_player() != player && o.cells[c] is None),
            _ => true,
        },
{
    let v = g.rules.board;
    let f = from.index as int;
    let t = to.index as int;
    lemma_preview_lists_every_capture(g, player, from, to, validate, c);
    lemma_preview_agrees_with_move(g, player, from, to, validate);
    lemma_preview_lists_only_enemies(g.cells, v, f, t, g.rules);
    let pv = spec_preview(g.cells, v, f, t, g.rules);
    let res = spec_apply_action(g, CrownfallPlayerAction::Move { player, from, to }, validate);
    if pv is Some && res is Ok {
        let captured = pv.unwrap().0;
        if captured.contains(spec_cell_of(c)) {
            let k = choose|k: int| 0 <= k < captured.len() && captured[k] == spec_cell_of(c);
            assert(captured[k].index as int == c);
        }
    }
}

/// An Archer's reach names each cell once.
proof fn lemma_archer_range_distinct(v: CrownfallBoardVariant, i: int)
    ensures
        spec_archer_range(v, i).no_duplicates(),
{
    let l = spec_board_length(v);
    assert(l >= 5);
    let x = spec_x(v, i);
    let y = spec_y(v, i);
    let s0 = Seq::<int>::empty();
    let s1 = if y >= 2 { s0.push(i - 2 * l) } else { s0 };
    let s2 = if y + 2 < l { s1.push(i + 2 * l) } else { s1 };
    let s3 = if x >= 2 { s2.push(i - 2) } else { s2 };
    assert(s0.no_duplicates());
    if y >= 2 {
        lemma_push_fresh(s0, i - 2 * l);
    }
    assert(forall|k: int| 0 <= k < s1.len() ==> #[trigger] s1[k] == i - 2 * l);
    if y + 2 < l {
        lemma_push_fresh(s1, i + 2 * l);
    }
    assert(forall|k: int| 0 <= k < s2.len() ==> #[trigger] s2[k] == i - 2 * l || s2[k] == i + 2 * l);
    if x >= 2 {
        lemma_push_fresh(s2, i - 2);
    }
    assert(forall|k: int| 0 <= k < s3.len() ==> #[trigger] s3[k] == i - 2 * l || s3[k] == i + 2 * l || s3[k] == i - 2);
    if x + 2 < l {
        lemma_push_fresh(s3, i + 2);
    }
}

proof fn lemma_first_ally_is_cover(cells: Seq<Option<CrownfallPiece>>, o: Seq<int>, k: int, attacker: CrownfallPlayerKind)
    requires
        0 <= k,
    ensures
        spec_first_ally_from(cells, o, k, attacker) matches Some(a) ==> o.contains(a) && spec_archer_cover(cells, a, attacker),
    decreases o.len() - k,
{
    if k < o.len() {
        lemma_first_ally_is_cover(cells, o, k + 1, attacker);
        if spec_first_ally_from(cells, o, k, attacker) == Some(o[k]) {
            assert(o[k] == o[k]);
        }
    }
}

proof fn lemma_archer_upto_facts(cells: Seq<Option<CrownfallPiece>>, v: CrownfallBoardVariant, range: Seq<int>, n: int, attacker: CrownfallPlayerKind)
    requires
        spec_on_board(v, range),
        range.no_duplicates(),
        0 <= n <= range.len(),
    ensures
        ({
            let acs = spec_archer_captures_upto(cells, v, range, n, attacker);
            &&& forall|k: int| 0 <= k < acs.len() ==> exists|m: int| 0 <= m < n && range[m] == (#[trigger] acs[k]).target as int
            &&& forall|k: int| 0 <= k < acs.len() ==> spec_ortho(v, (#[trigger] acs[k]).target as int).contains(acs[k].ally as int)
                && spec_archer_cover(cells, acs[k].ally as int, attacker)
            &&& forall|i: int, j: int| 0 <= i < j < acs.len() ==> (#[trigger] acs[i]).target != (#[trigger] acs[j]).target
        }),
    decreases n,
{
    if n > 0 {
        lemma_archer_upto_facts(cells, v, range, n - 1, attacker);
        let prev = spec_archer_captures_upto(cells, v, range, n - 1, attacker);
        let cur = spec_archer_captures_upto(cells, v, range, n, attacker);
        let r = range[n - 1];
        assert(0 <= r < spec_cell_count(v));
        lemma_first_ally_is_cover(cells, spec_ortho(v, r), 0, attacker);
        lemma_knight_shapes_on_board(v, attacker, r, CrownfallRules { board: v, ruleset: crate::engine::types::CrownfallRuleset::Archers });
        if let Some(ac) = spec_archer_capture_at(cells, v, r, attacker) {
            assert(cur == prev.push(ac));
            assert(ac.target as int == r);
            let a = spec_first_ally_from(cells, spec_ortho(v, r), 0, attacker).unwrap();
            assert(ac.ally as int == a);
            assert forall|k: int| 0 <= k < cur.len() implies exists|m: int| 0 <= m < n && range[m] == (#[trigger] cur[k]).target as int by {
                if k < prev.len() {
                    assert(cur[k] == prev[k]);
                    let m = choose|m: int| 0 <= m < n - 1 && range[m] == prev[k].target as int;
                    assert(range[m] == cur[k].target as int);
                } else {
                    assert(range[n - 1] == cur[k].target as int);
                }
            }
            assert forall|k: int| 0 <= k < cur.len() implies spec_ortho(v, (#[trigger] cur[k]).target as int).contains(cur[k].ally as int)
                && spec_archer_cover(cells, cur[k].ally as int, attacker) by {
                if k < prev.len() {
                    assert(cur[k] == prev[k]);
                }
            }
            assert forall|i: int, j: int| 0 <= i < j < cur.len() implies (#[trigger] cur[i]).target != (#[trigger] cur[j]).target by {
                if j < prev.len() {
                    assert(cur[i] == prev[i] && cur[j] == prev[j]);
                } else {
                    assert(cur[i] == prev[i]);
                    let m = choose|m: int| 0 <= m < n - 1 && range[m] == prev[i].target as int;
                    assert(range[m] != range[n - 1]);
                }
            }
        } else {
            assert(cur == prev);
            assert forall|k: int| 0 <= k < cur.len() implies exists|m: int| 0 <= m < n && range[m] == (#[trigger] cur[k]).target as int by {
                let m = choose|m: int| 0 <= m < n - 1 && range[m] == prev[k].target as int;
                assert(range[m] == cur[k].target as int);
            }
        }
    }
}

/// Law: an Archer's shot takes each target once, and reports for each a
/// covering piece: an orthogonal neighbour of the target holding a piece of
/// the Archer's side other than an Archer.
pub proof fn lemma_archer_shot_allies(cells: Seq<Option<CrownfallPiece>>, v: CrownfallBoardVariant, to: int, attacker: CrownfallPlayerKind)
    requires
        0 <= to < spec_cell_count(v),
    ensures
        ({
            let acs = spec_check_archer_capture(cells, v, to, attacker);
            &&& acs.len() <= 4
            &&& forall|i: int, j: int| 0 <= i < j < acs.len() ==> (#[trigger] acs[i]).target != (#[trigger] acs[j]).target
            &&& forall|k: int| 0 <= k < acs.len() ==> spec_ortho(v, (#[trigger] acs[k]).target as int).contains(acs[k].ally as int)
                && spec_archer_cover(cells, acs[k].ally as int, attacker)
        }),
{
    let range = spec_archer_range(v, to);
    lemma_knight_shapes_on_board(v, attacker, to, CrownfallRules { board: v, ruleset: crate::engine::types::CrownfallRuleset::Archers });
    lemma_archer_range_distinct(v, to);
    lemma_archer_upto_facts(cells, v, range, range.len() as int, attacker);
    lemma_archer_upto_len(cells, v, range, range.len() as int, attacker);
}

proof fn lemma_archer_upto_len(cells: Seq<Option<CrownfallPiece>>, v: CrownfallBoardVariant, range: Seq<int>, n: int, attacker: CrownfallPlayerKind)
    requires
        0 <= n <= range.len(),
    ensures
        spec_archer_captures_upto(cells, v, range, n, attacker).len() <= n,
    decreases n,
{
    if n > 0 {
        lemma_archer_upto_len(cells, v, range, n - 1, attacker);
    }
}

/// The cells a piece may step to, by coordinates: a Knight moves one tile
/// forward (up for White, down for Black) or sideways, or, with diagonal
/// Knights, one tile diagonally forward; every other piece moves one tile
/// orthogonally.
pub open spec fn spec_shape_step(v: CrownfallBoardVariant, piece: CrownfallPiece, rules: CrownfallRules, from: int, d: int) -> bool {
    let dx = spec_x(v, d) - spec_x(v, from);
    let dy = spec_y(v, d) - spec_y(v, from);
    let f = if piece.spec_player() == CrownfallPlayerKind::White { -1int } else { 1int };
    let orthogonal = (dx == 0 && (dy == 1 || dy == -1)) || (dy == 0 && (dx == 1 || dx == -1));
    if piece.spec_kind() == CrownfallPieceKind::Knight {
        if rules.ruleset.spec_knights_move_diagonally() {
            dy == f && (dx == 1 || dx == -1)
        } else {
            orthogonal && !(dx == 0 && dy == -f)
        }
    } else {
        orthogonal
    }
}

/// Neighbouring cells by index and by coordinates.
proof fn lemma_neighbours(v: CrownfallBoardVariant, i: int, d: int)
    requires
        0 <= i < spec_cell_count(v),
        0 <= d < spec_cell_count(v),
    ensures
        ({
            let l = spec_board_length(v);
            let x = spec_x(v, i);
            let y = spec_y(v, i);
            let dx = spec_x(v, d) - x;
            let dy = spec_y(v, d) - y;
            &&& (y > 0 && d == i - l) <==> (dx == 0 && dy == -1)
            &&& (y + 1 < l && d == i + l) <==> (dx == 0 && dy == 1)
            &&& (x > 0 && d == i - 1) <==> (dx == -1 && dy == 0)
            &&& (x + 1 < l && d == i + 1) <==> (dx == 1 && dy == 0)
            &&& (y > 0 && x > 0 && d == i - l - 1) <==> (dx == -1 && dy == -1)
            &&& (y > 0 && x + 1 < l && d == i - l + 1) <==> (dx == 1 && dy == -1)
            &&& (y + 1 < l && x > 0 && d == i + l - 1) <==> (dx == -1 && dy == 1)
            &&& (y + 1 < l && x + 1 < l && d == i + l + 1) <==> (dx == 1 && dy == 1)
        }),
{
    crate::engine::geometry::lemma_coord(v, i);
    crate::engine::geometry::lemma_coord(v, d);
    let (xi, yi, xd, yd) = (spec_x(v, i), spec_y(v, i), spec_x(v, d), spec_y(v, d));
    match v {
        CrownfallBoardVariant::Mini => lemma_digits(5, xi, yi, xd, yd),
        CrownfallBoardVariant::Normal => lemma_digits(7, xi, yi, xd, yd),
        CrownfallBoardVariant::Grand => lemma_digits(9, xi, yi, xd, yd),
    }
}

/// Two cells given by column and row, on a board `l` wide: how their index
/// difference reflects the step between them.
proof fn lemma_digits(l: int, xi: int, yi: int, xd: int, yd: int)
    requires
        l == 5 || l == 7 || l == 9,
        0 <= xi < l,
        0 <= xd < l,
        0 <= yi < l,
        0 <= yd < l,
    ensures
        ({
            let i = xi + yi * l;
            let d = xd + yd * l;
            let dx = xd - xi;
            let dy = yd - yi;
            &&& (yi > 0 && d == i - l) <==> (dx == 0 && dy == -1)
            &&& (yi + 1 < l && d == i + l) <==> (dx == 0 && dy == 1)
            &&& (xi > 0 && d == i - 1) <==> (dx == -1 && dy == 0)
            &&& (xi + 1 < l && d == i + 1) <==> (dx == 1 && dy == 0)
            &&& (yi > 0 && xi > 0 && d == i - l - 1) <==> (dx == -1 && dy == -1)
            &&& (yi > 0 && xi + 1 < l && d == i - l + 1) <==> (dx == 1 && dy == -1)
            &&& (yi + 1 < l && xi > 0 && d == i + l - 1) <==> (dx == -1 && dy == 1)
            &&& (yi + 1 < l && xi + 1 < l && d == i + l + 1) <==> (dx == 1 && dy == 1)
        }),
{
}

/// Membership in a pushed sequence.
proof fn lemma_push_contains(s: Seq<int>, a: int, d: int)
    ensures
        s.push(a).contains(d) <==> (s.contains(d) || a == d),
{
    if s.push(a).contains(d) {
        let k = choose|k: int| 0 <= k < s.push(a).len() && s.push(a)[k] == d;
        if k < s.len() {
            assert(s[k] == d);
        }
    }
    if s.contains(d) {
        let k = choose|k: int| 0 <= k < s.len() && s[k] == d;
        assert(s.push(a)[k] == d);
    }
    if a == d {
        assert(s.push(a)[s.len() as int] == d);
    }
}

proof fn lemma_ortho_skip_contains(v: CrownfallBoardVariant, i: int, su: bool, sd: bool, d: int)
    ensures
        ({
            let l = spec_board_length(v);
            let x = spec_x(v, i);
            let y = spec_y(v, i);
            spec_ortho_skip(v, i, su, sd).contains(d) <==> {
                ||| (y > 0 && !su && d == i - l)
                ||| (y + 1 < l && !sd && d == i + l)
                ||| (x > 0 && d == i - 1)
                ||| (x + 1 < l && d == i + 1)
            }
        }),
{
    let l = spec_board_length(v);
    let x = spec_x(v, i);
    let y = spec_y(v, i);
    let s0 = Seq::<int>::empty();
    let s1 = if y > 0 && !su { s0.push(i - l) } else { s0 };
    let s2 = if y + 1 < l && !sd { s1.push(i + l) } else { s1 };
    let s3 = if x > 0 { s2.push(i - 1) } else { s2 };
    assert(!s0.contains(d));
    lemma_push_contains(s0, i - l, d);
    lemma_push_contains(s1, i + l, d);
    lemma_push_contains(s2, i - 1, d);
    lemma_push_contains(s3, i + 1, d);
}

proof fn lemma_diagonal_contains(v: CrownfallBoardVariant, p: CrownfallPlayerKind, i: int, d: int)
    ensures
        ({
            let l = spec_board_length(v);
            let x = spec_x(v, i);
            let f = spec_forward(v, p, i);
            spec_knight_diagonal_moves(v, p, i).contains(d) <==> spec_forward_ok(v, p, i) && {
                ||| (x > 0 && d == f - 1)
                ||| (x + 1 < l && d == f + 1)
            }
        }),
{
    let l = spec_board_length(v);
    let x = spec_x(v, i);
    let f = spec_forward(v, p, i);
    let s1 = if x > 0 { seq![f - 1] } else { Seq::<int>::empty() };
    assert(!Seq::<int>::empty().contains(d));
    lemma_push_contains(Seq::<int>::empty(), f - 1, d);
    assert(seq![f - 1] == Seq::<int>::empty().push(f - 1));
    lemma_push_contains(s1, f + 1, d);
}

/// A piece's movement candidates, by coordinates.
proof fn lemma_candidates_by_coordinates(cells: Seq<Option<CrownfallPiece>>, v: CrownfallBoardVariant, cell: int, rules: CrownfallRules, d: int)
    requires
        0 <= cell < spec_cell_count(v),
        0 <= d < spec_cell_count(v),
    ensures
        spec_move_candidates(cells, v, cell, rules).contains(d)
            <==> cells[cell] is Some && spec_shape_step(v, cells[cell].unwrap(), rules, cell, d),
{
    lemma_neighbours(v, cell, d);
    if cells[cell] is Some {
        let pc = cells[cell].unwrap();
        if pc.spec_kind() == CrownfallPieceKind::Knight {
            if rules.ruleset.spec_knights_move_diagonally() {
                lemma_diagonal_contains(v, pc.spec_player(), cell, d);
            } else if pc.spec_player() == CrownfallPlayerKind::White {
                lemma_ortho_skip_contains(v, cell, false, true, d);
            } else {
                lemma_ortho_skip_contains(v, cell, true, false, d);
            }
        } else {
            lemma_ortho_skip_contains(v, cell, false, false, d);
        }
    } else {
        assert(!Seq::<int>::empty().contains(d));
    }
}

/// Two cells given by column and row, on a board `l` wide, two tiles apart
/// in a straight line.
proof fn lemma_digits_two(l: int, xi: int, yi: int, xd: int, yd: int)
    requires
        l == 5 || l == 7 || l == 9,
        0 <= xi < l,
        0 <= xd < l,
        0 <= yi < l,
        0 <= yd < l,
    ensures
        ({
            let i = xi + yi * l;
            let d = xd + yd * l;
            let dx = xd - xi;
            let dy = yd - yi;
            &&& (yi >= 2 && d == i - 2 * l) <==> (dx == 0 && dy == -2)
            &&& (yi + 2 < l && d == i + 2 * l) <==> (dx == 0 && dy == 2)
            &&& (xi >= 2 && d == i - 2) <==> (dx == -2 && dy == 0)
            &&& (xi + 2 < l && d == i + 2) <==> (dx == 2 && dy == 0)
        }),
{
}

/// Law: an Archer's reach, by coordinates: the cells exactly two tiles
/// away in a straight orthogonal line, in all four directions, as far as
/// the board goes.
pub proof fn lemma_archer_range_by_coordinates(v: CrownfallBoardVariant, i: int, c: int)
    requires
        0 <= i < spec_cell_count(v),
        0 <= c < spec_cell_count(v),
    ensures
        ({
            let dx = spec_x(v, c) - spec_x(v, i);
            let dy = spec_y(v, c) - spec_y(v, i);
            spec_archer_range(v, i).contains(c) <==> ((dx == 0 && (dy == 2 || dy == -2)) || (dy == 0 && (dx == 2 || dx == -2)))
        }),
{
    crate::engine::geometry::lemma_coord(v, i);
    crate::engine::geometry::lemma_coord(v, c);
    let (xi, yi, xd, yd) = (spec_x(v, i), spec_y(v, i), spec_x(v, c), spec_y(v, c));
    match v {
        CrownfallBoardVariant::Mini => lemma_digits_two(5, xi, yi, xd, yd),
        CrownfallBoardVariant::Normal => lemma_digits_two(7, xi, yi, xd, yd),
        CrownfallBoardVariant::Grand => lemma_digits_two(9, xi, yi, xd, yd),
    }
    let l = spec_board_length(v);
    let s0 = Seq::<int>::empty();
    let s1 = if yi >= 2 { s0.push(i - 2 * l) } else { s0 };
    let s2 = if yi + 2 < l { s1.push(i + 2 * l) } else { s1 };
    let s3 = if xi >= 2 { s2.push(i - 2) } else { s2 };
    assert(!s0.contains(c));
    lemma_push_contains(s0, i - 2 * l, c);
    lemma_push_contains(s1, i + 2 * l, c);
    lemma_push_contains(s2, i - 2, c);
    lemma_push_contains(s3, i + 2, c);
}

/// Law: the valid destinations of the piece at `cell`, by coordinates: the
/// empty cells one step away in its movement shape (`spec_shape_step`),
/// none for an empty cell, each listed once.
#[verifier::rlimit(50)]
pub proof fn lemma_valid_destinations_by_coordinates(cells: Seq<Option<CrownfallPiece>>, v: CrownfallBoardVariant, cell: int, rules: CrownfallRules, d: int)
    requires
        cells.len() == spec_cell_count(v),
        0 <= cell < spec_cell_count(v),
        0 <= d < spec_cell_count(v),
    ensures
        spec_valid_destinations(cells, v, cell, rules).contains(CrownfallBoardCell { index: d as u8 })
            <==> cells[d] is None && cells[cell] is Some && spec_shape_step(v, cells[cell].unwrap(), rules, cell, d),
        spec_valid_destinations(cells, v, cell, rules).no_duplicates(),
{
    let cands = spec_move_candidates(cells, v, cell, rules);
    if cells[cell] is Some {
        lemma_knight_shapes_on_board(v, cells[cell].unwrap().spec_player(), cell, rules);
    }
    assert(spec_on_board(v, cands));
    lemma_keep_empty_contains(cells, v, cands, cands.len() as int, d);
    lemma_candidates_by_coordinates(cells, v, cell, rules, d);
    if cands.contains(d) {
        let k = choose|k: int| 0 <= k < cands.len() && cands[k] == d;
        assert(cands[k] == d);
    }
    if exists|k: int| 0 <= k < cands.len() && #[trigger] cands[k] == d {
        let k = choose|k: int| 0 <= k < cands.len() && #[trigger] cands[k] == d;
        assert(cands.contains(d));
    }
    crate::engine::movegen::lemma_candidates_distinct(cells, v, cell, rules);
    lemma_keep_empty_distinct(cells, v, cands, cands.len() as int);
}

/// Keeping the empty cells of a duplicate-free on-board list lists each
/// cell once.
proof fn lemma_keep_empty_distinct(cells: Seq<Option<CrownfallPiece>>, v: CrownfallBoardVariant, s: Seq<int>, n: int)
    requires
        spec_on_board(v, s),
        0 <= n <= s.len(),
    ensures
        s.no_duplicates() ==> spec_keep_empty(cells, s, n).no_duplicates(),
    decreases n,
{
    if n > 0 && s.no_duplicates() {
        lemma_keep_empty_distinct(cells, v, s, n - 1);
        let prev = spec_keep_empty(cells, s, n - 1);
        let c = s[n - 1];
        if cells[c].is_none() {
            let cell = CrownfallBoardCell { index: c as u8 };
            assert forall|k: int| 0 <= k < prev.len() implies #[trigger] prev[k] != cell by {
                if prev[k] == cell {
                    assert(0 <= c < spec_cell_count(v));
                    lemma_keep_empty_contains(cells, v, s, n - 1, c);
                    assert(prev.contains(cell));
                    let m = choose|m: int| 0 <= m < n - 1 && #[trigger] s[m] == c;
                    assert(s[m] == s[n - 1]);
                }
            }
            lemma_push_fresh(prev, cell);
        }
    }
}

/// `b` is `a` with some of its cells emptied.
pub open spec fn spec_only_cleared(a: Seq<Option<CrownfallPiece>>, b: Seq<Option<CrownfallPiece>>) -> bool {
    &&& a.len() == b.len()
    &&& forall|i: int| 0 <= i < a.len() ==> #[trigger] b[i] == a[i] || b[i] is None
}

/// 1 when `piece` is of `kind` and owned by `player`, else 0.
pub open spec fn spec_counts_as(piece: CrownfallPiece, kind: CrownfallPieceKind, player: CrownfallPlayerKind) -> int {
    if piece.spec_kind() == kind && piece.spec_player() == player { 1 } else { 0 }
}

proof fn lemma_count_cleared(a: Seq<Option<CrownfallPiece>>, b: Seq<Option<CrownfallPiece>>, kind: CrownfallPieceKind, player: CrownfallPlayerKind, n: int)
    requires
        spec_only_cleared(a, b),
        0 <= n <= a.len(),
    ensures
        spec_count(b, kind, player, n) <= spec_count(a, kind, player, n),
    decreases n,
{
    if n > 0 {
        lemma_count_cleared(a, b, kind, player, n - 1);
        assert(b[n - 1] == a[n - 1] || b[n - 1] is None);
    }
}

proof fn lemma_count_moved(cells: Seq<Option<CrownfallPiece>>, f: int, t: int, piece: CrownfallPiece, kind: CrownfallPieceKind, player: CrownfallPlayerKind, n: int)
    requires
        0 <= f < cells.len(),
        0 <= t < cells.len(),
        f != t,
        cells[f] == Some(piece),
        cells[t] is None,
        0 <= n <= cells.len(),
    ensures
        spec_count(spec_moved(cells, f, t, piece), kind, player, n)
            == spec_count(cells, kind, player, n) - (if f < n { spec_counts_as(piece, kind, player) } else { 0 })
                + (if t < n { spec_counts_as(piece, kind, player) } else { 0 }),
    decreases n,
{
    if n > 0 {
        lemma_count_moved(cells, f, t, piece, kind, player, n - 1);
    }
}

proof fn lemma_piece_captures_only_clear(cells: Seq<Option<CrownfallPiece>>, v: CrownfallBoardVariant, caps: Seq<PieceCapture>, n: int, player: CrownfallPlayerKind, to: int, mover: CrownfallPieceKind, rules: CrownfallRules)
    requires
        cells.len() == spec_cell_count(v),
        0 <= to < spec_cell_count(v),
        0 <= n <= caps.len(),
        forall|k: int| 0 <= k < caps.len() ==> spec_capture_on_board(v, #[trigger] caps[k]),
    ensures
        spec_only_cleared(cells, spec_apply_piece_captures(cells, v, caps, n, player, to, mover, rules)),
    decreases n,
{
    if n > 0 {
        lemma_piece_captures_only_clear(cells, v, caps, n - 1, player, to, mover, rules);
        assert(spec_capture_on_board(v, caps[n - 1]));
    }
}

proof fn lemma_archer_captures_only_clear(cells: Seq<Option<CrownfallPiece>>, v: CrownfallBoardVariant, acs: Seq<ArcherCapture>, n: int)
    requires
        cells.len() == spec_cell_count(v),
        0 <= n <= acs.len(),
        forall|k: int| 0 <= k < acs.len() ==> (#[trigger] acs[k]).target < spec_cell_count(v),
    ensures
        spec_only_cleared(cells, spec_apply_archer_captures(cells, acs, n)),
    decreases n,
{
    if n > 0 {
        lemma_archer_captures_only_clear(cells, v, acs, n - 1);
        assert(acs[n - 1].target < spec_cell_count(v));
    }
}

/// Law: no action ever adds a piece. After any accepted action each
/// player holds at most as many pieces of each kind as before: a move only
/// relocates the moving piece, and captures, sacrifices, removals and
/// traps only empty cells.
pub proof fn lemma_pieces_never_created(g: Snap, action: CrownfallPlayerAction, validate: bool)
    requires
        g.cells.len() == spec_cell_count(g.rules.board),
    ensures
        spec_apply_action(g, action, validate) matches Ok(o) ==> forall|kind: CrownfallPieceKind, player: CrownfallPlayerKind|
            #[trigger] spec_piece_count(o.cells, kind, player) <= spec_piece_count(g.cells, kind, player),
{
    let v = g.rules.board;
    let rules = g.rules;
    if spec_apply_action(g, action, validate) is Ok {
        let o = spec_apply_action(g, action, validate).unwrap();
        match action {
            CrownfallPlayerAction::Move { player: mover, from, to } => {
                let f = from.index as int;
                let t = to.index as int;
                let piece = g.cells[f].unwrap();
                let s1 = spec_moved(g.cells, f, t, piece);
                lemma_move_findings_on_board(s1, v, t, mover, rules);
                let pcs = crate::engine::captures::spec_check_piece_captures(s1, v, t, mover, rules);
                let acs = crate::engine::captures::spec_check_archer_capture(s1, v, t, mover);
                let crown = crate::engine::captures::spec_check_crown_capture(s1, v, t, mover, rules);
                let trapped = crate::engine::captures::spec_check_self_spy_trap(s1, v, t, mover, rules);
                let b1 = match crown { Some(c) => s1.update(c, None), None => s1 };
                let b2 = if trapped { b1.update(t, None) } else { b1 };
                lemma_piece_captures_only_clear(s1, v, pcs, pcs.len() as int, mover, t, piece.spec_kind(), rules);
                lemma_piece_captures_only_clear(b2, v, pcs, pcs.len() as int, mover, t, piece.spec_kind(), rules);
                let b3 = if pcs.len() > 0 {
                    spec_apply_piece_captures(b2, v, pcs, pcs.len() as int, mover, t, piece.spec_kind(), rules)
                } else {
                    b2
                };
                lemma_archer_captures_only_clear(s1, v, acs, acs.len() as int);
                lemma_archer_captures_only_clear(b3, v, acs, acs.len() as int);
                assert(spec_only_cleared(s1, o.cells));
                assert forall|kind: CrownfallPieceKind, player: CrownfallPlayerKind|
                    #[trigger] spec_piece_count(o.cells, kind, player) <= spec_piece_count(g.cells, kind, player) by {
                    lemma_count_moved(g.cells, f, t, piece, kind, player, g.cells.len() as int);
                    lemma_count_cleared(s1, o.cells, kind, player, s1.len() as int);
                }
            },
            CrownfallPlayerAction::KnightRemoval { player: p, at } => {
                let i = at.index as int;
                assert(spec_only_cleared(g.cells, o.cells));
                assert forall|kind: CrownfallPieceKind, player: CrownfallPlayerKind|
                    #[trigger] spec_piece_count(o.cells, kind, player) <= spec_piece_count(g.cells, kind, player) by {
                    lemma_count_cleared(g.cells, o.cells, kind, player, g.cells.len() as int);
                }
            },
            CrownfallPlayerAction::Surrender { player: p } => {},
        }
    }
}

} // verus!
