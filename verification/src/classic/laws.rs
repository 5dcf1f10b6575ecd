//! Properties of the 7x7 rules that hold across every action.
use vstd::prelude::*;
use crate::engine::captures::spec_keep_not_in;
use crate::engine::geometry::{lemma_keep_not_in_from, lemma_knight_shapes_on_board};
use crate::engine::tables::spec_on_board;
use crate::engine::types::{CrownfallBoardVariant, CrownfallRules, CrownfallRuleset};
use crate::classic::rules::{
    spec_action_in_bounds, spec_apply_captures, spec_arc, spec_candidates, spec_captures_upto,
    spec_continue, spec_count, spec_crown_capture, spec_crown_capture_from, spec_destinations, spec_engine_player,
    spec_handle_knight_removal, spec_own_crown_trap, spec_self_spy_trap,
    spec_find_pair, spec_first_pair_from, spec_first_partner, spec_handle_action, spec_handle_move, spec_keep_empty,
    spec_keep_owned, spec_moved, spec_neighbours, spec_piece_captures, spec_piece_count, spec_scan,
    Pair, Snap, NO_PROGRESS_LIMIT,
};
use crate::classic::types::{Cell, Piece, PieceKind, PlayerAction, PlayerKind, TurnResult};

verus! {

/// A rules value whose shapes are the plain ones; only the geometry facts
/// that hold for every ruleset are read from it.
spec fn spec_plain_rules() -> CrownfallRules {
    CrownfallRules { board: CrownfallBoardVariant::Normal, ruleset: CrownfallRuleset::Archers }
}

proof fn lemma_shapes_on_board(i: int, p: PlayerKind)
    requires
        0 <= i < 49,
    ensures
        spec_on_board(CrownfallBoardVariant::Normal, spec_neighbours(i)),
        spec_on_board(CrownfallBoardVariant::Normal, spec_arc(i, p)),
{
    lemma_knight_shapes_on_board(CrownfallBoardVariant::Normal, spec_engine_player(p), i, spec_plain_rules());
}

proof fn lemma_keep_owned_from(cells: Seq<Option<Piece>>, s: Seq<int>, p: PlayerKind, n: int)
    requires
        0 <= n <= s.len(),
    ensures
        forall|k: int| 0 <= k < spec_keep_owned(cells, s, p, n).len() ==> s.contains(#[trigger] spec_keep_owned(cells, s, p, n)[k]),
    decreases n,
{
    if n > 0 {
        lemma_keep_owned_from(cells, s, p, n - 1);
        let prev = spec_keep_owned(cells, s, p, n - 1);
        let cur = spec_keep_owned(cells, s, p, n);
        assert forall|k: int| 0 <= k < cur.len() implies s.contains(#[trigger] cur[k]) by {
            if k < prev.len() {
                assert(cur[k] == prev[k]);
            } else {
                assert(s[n - 1] == cur[k]);
            }
        }
    }
}

/// A pair's two attackers on the board.
pub open spec fn spec_pair_on_board(p: Pair) -> bool {
    p.first < 49 && p.second < 49
}

proof fn lemma_first_partner_on_board(cells: Seq<Option<Piece>>, att: Seq<int>, i: int, j: int)
    requires
        spec_on_board(CrownfallBoardVariant::Normal, att),
        0 <= i < att.len(),
        0 <= j,
    ensures
        spec_first_partner(cells, att, i, j) matches Some(p) ==> spec_pair_on_board(p),
    decreases att.len() - j,
{
    if j < att.len() {
        lemma_first_partner_on_board(cells, att, i, j + 1);
    }
}

proof fn lemma_first_pair_on_board(cells: Seq<Option<Piece>>, att: Seq<int>, i: int)
    requires
        spec_on_board(CrownfallBoardVariant::Normal, att),
        0 <= i,
    ensures
        spec_first_pair_from(cells, att, i) matches Some(p) ==> spec_pair_on_board(p),
    decreases att.len() - i,
{
    if i < att.len() {
        lemma_first_partner_on_board(cells, att, i, i + 1);
        lemma_first_pair_on_board(cells, att, i + 1);
    }
}

proof fn lemma_find_pair_on_board(cells: Seq<Option<Piece>>, target: int, attacker: PlayerKind)
    requires
        0 <= target < 49,
    ensures
        spec_find_pair(cells, target, attacker) matches Some(p) ==> spec_pair_on_board(p),
{
    let o = spec_neighbours(target);
    lemma_shapes_on_board(target, attacker);
    lemma_keep_owned_from(cells, o, attacker, o.len() as int);
    let att = spec_keep_owned(cells, o, attacker, o.len() as int);
    assert forall|k: int| 0 <= k < att.len() implies 0 <= #[trigger] att[k] < 49 by {
        assert(o.contains(att[k]));
    }
    lemma_first_pair_on_board(cells, att, 0);
}

proof fn lemma_scan_on_board(cells: Seq<Option<Piece>>, to: int, mover: PlayerKind)
    requires
        0 <= to < 49,
    ensures
        spec_on_board(CrownfallBoardVariant::Normal, spec_scan(cells, to, mover)),
{
    lemma_shapes_on_board(to, mover);
    let o = spec_neighbours(to);
    let a = spec_arc(to, mover);
    lemma_keep_not_in_from(a, o, a.len() as int);
    let scan = spec_scan(cells, to, mover);
    assert forall|k: int| 0 <= k < scan.len() implies 0 <= #[trigger] scan[k] < 49 by {
        if k >= o.len() {
            let rest = spec_keep_not_in(a, o, a.len() as int);
            assert(scan[k] == rest[k - o.len()]);
            assert(a.contains(rest[k - o.len()]));
        }
    }
}

proof fn lemma_captures_on_board(cells: Seq<Option<Piece>>, scan: Seq<int>, n: int, attacker: PlayerKind)
    requires
        spec_on_board(CrownfallBoardVariant::Normal, scan),
        0 <= n <= scan.len(),
    ensures
        forall|k: int| 0 <= k < spec_captures_upto(cells, scan, n, attacker).len() ==> {
            let (t, p) = #[trigger] spec_captures_upto(cells, scan, n, attacker)[k];
            0 <= t < 49 && spec_pair_on_board(p)
        },
    decreases n,
{
    if n > 0 {
        lemma_captures_on_board(cells, scan, n - 1, attacker);
        lemma_find_pair_on_board(cells, scan[n - 1], attacker);
        let prev = spec_captures_upto(cells, scan, n - 1, attacker);
        let cur = spec_captures_upto(cells, scan, n, attacker);
        assert forall|k: int| 0 <= k < cur.len() implies ({
            let (t, p) = #[trigger] cur[k];
            0 <= t < 49 && spec_pair_on_board(p)
        }) by {
            if k < prev.len() {
                assert(cur[k] == prev[k]);
            }
        }
    }
}

proof fn lemma_crown_capture_on_board(cells: Seq<Option<Piece>>, scan: Seq<int>, k: int, to: int, attacker: PlayerKind)
    requires
        spec_on_board(CrownfallBoardVariant::Normal, scan),
        0 <= k,
    ensures
        spec_crown_capture_from(cells, scan, k, to, attacker) matches Some(c) ==> 0 <= c < 49,
    decreases scan.len() - k,
{
    if k < scan.len() {
        lemma_crown_capture_on_board(cells, scan, k + 1, to, attacker);
    }
}

proof fn lemma_keep_empty_on_board(cells: Seq<Option<Piece>>, s: Seq<int>, n: int)
    requires
        spec_on_board(CrownfallBoardVariant::Normal, s),
        0 <= n <= s.len(),
    ensures
        forall|k: int| 0 <= k < spec_keep_empty(cells, s, n).len() ==> (#[trigger] spec_keep_empty(cells, s, n)[k]).index < 49
            && cells[spec_keep_empty(cells, s, n)[k].index as int] is None,
    decreases n,
{
    if n > 0 {
        lemma_keep_empty_on_board(cells, s, n - 1);
        let prev = spec_keep_empty(cells, s, n - 1);
        let cur = spec_keep_empty(cells, s, n);
        assert forall|k: int| 0 <= k < cur.len() implies (#[trigger] cur[k]).index < 49 && cells[cur[k].index as int] is None by {
            if k < prev.len() {
                assert(cur[k] == prev[k]);
            }
        }
    }
}

/// `b` is `a` with some of its cells emptied.
pub open spec fn spec_only_cleared(a: Seq<Option<Piece>>, b: Seq<Option<Piece>>) -> bool {
    &&& a.len() == b.len()
    &&& forall|i: int| 0 <= i < a.len() ==> #[trigger] b[i] == a[i] || b[i] is None
}

proof fn lemma_apply_captures_only_clear(cells: Seq<Option<Piece>>, caps: Seq<(int, Pair)>, n: int, to: int, mover: PieceKind)
    requires
        cells.len() == 49,
        0 <= to < 49,
        0 <= n <= caps.len(),
        forall|k: int| 0 <= k < caps.len() ==> {
            let (t, p) = #[trigger] caps[k];
            0 <= t < 49 && spec_pair_on_board(p)
        },
    ensures
        spec_only_cleared(cells, spec_apply_captures(cells, caps, n, to, mover)),
    decreases n,
{
    if n > 0 {
        lemma_apply_captures_only_clear(cells, caps, n - 1, to, mover);
        let (t, p) = caps[n - 1];
        assert(0 <= t < 49 && spec_pair_on_board(p));
    }
}

proof fn lemma_count_cleared(a: Seq<Option<Piece>>, b: Seq<Option<Piece>>, player: PlayerKind, kind: PieceKind, n: int)
    requires
        spec_only_cleared(a, b),
        0 <= n <= a.len(),
    ensures
        spec_count(b, player, kind, n) <= spec_count(a, player, kind, n),
    decreases n,
{
    if n > 0 {
        lemma_count_cleared(a, b, player, kind, n - 1);
        assert(b[n - 1] == a[n - 1] || b[n - 1] is None);
    }
}

proof fn lemma_count_moved(cells: Seq<Option<Piece>>, f: int, t: int, piece: Piece, player: PlayerKind, kind: PieceKind, n: int)
    requires
        0 <= f < cells.len(),
        0 <= t < cells.len(),
        f != t,
        cells[f] == Some(piece),
        cells[t] is None,
        0 <= n <= cells.len(),
    ensures
        spec_count(spec_moved(cells, f, t, piece), player, kind, n)
            == spec_count(cells, player, kind, n)
                - (if f < n && piece.player == player && piece.kind == kind { 1int } else { 0int })
                + (if t < n && piece.player == player && piece.kind == kind { 1int } else { 0int }),
    decreases n,
{
    if n > 0 {
        lemma_count_moved(cells, f, t, piece, player, kind, n - 1);
    }
}

proof fn lemma_move_only_clears(g: Snap, mover: PlayerKind, from: Cell, to: Cell)
    requires
        g.cells.len() == 49,
        from.index < 49,
        spec_handle_move(g, mover, from, to) is Ok,
    ensures
        ({
            let f = from.index as int;
            let t = to.index as int;
            &&& g.cells[f] is Some
            &&& 0 <= t < 49
            &&& f != t
            &&& g.cells[t] is None
            &&& spec_only_cleared(spec_moved(g.cells, f, t, g.cells[f].unwrap()), spec_handle_move(g, mover, from, to).unwrap().cells)
        }),
{
    let f = from.index as int;
    let t = to.index as int;
    let piece = g.cells[f].unwrap();
    let c = spec_candidates(g.cells, f);
    lemma_shapes_on_board(f, piece.player);
    lemma_keep_empty_on_board(g.cells, c, c.len() as int);
    let dests = spec_destinations(g.cells, f);
    assert(dests.contains(to));
    let j = choose|j: int| 0 <= j < dests.len() && dests[j] == to;
    assert(dests[j].index < 49 && g.cells[dests[j].index as int] is None);
    let b = spec_moved(g.cells, f, t, piece);
    let scan = spec_scan(b, t, mover);
    lemma_scan_on_board(b, t, mover);
    lemma_crown_capture_on_board(b, scan, 0, t, mover);
    lemma_captures_on_board(b, scan, scan.len() as int, mover);
    let caps = spec_piece_captures(b, t, mover);
    lemma_apply_captures_only_clear(b, caps, caps.len() as int, t, piece.kind);
}

/// Law: no action ever adds a piece. After any accepted action each
/// player holds at most as many pieces of each kind as before.
pub proof fn lemma_pieces_never_created(g: Snap, action: PlayerAction)
    requires
        g.cells.len() == 49,
        spec_action_in_bounds(action),
    ensures
        spec_handle_action(g, action) matches Ok(o) ==> forall|player: PlayerKind, kind: PieceKind|
            #[trigger] spec_piece_count(o.cells, player, kind) <= spec_piece_count(g.cells, player, kind),
{
    if spec_handle_action(g, action) is Ok {
        let o = spec_handle_action(g, action).unwrap();
        match action {
            PlayerAction::Move { player: mover, from, to } => {
                let f = from.index as int;
                let t = to.index as int;
                lemma_move_only_clears(g, mover, from, to);
                let piece = g.cells[f].unwrap();
                let b = spec_moved(g.cells, f, t, piece);
                assert(o.cells == spec_handle_move(g, mover, from, to).unwrap().cells);
                assert forall|player: PlayerKind, kind: PieceKind|
                    #[trigger] spec_piece_count(o.cells, player, kind) <= spec_piece_count(g.cells, player, kind) by {
                    lemma_count_moved(g.cells, f, t, piece, player, kind, 49);
                    lemma_count_cleared(b, o.cells, player, kind, 49);
                }
            },
            PlayerAction::KnightRemoval { player: p, at } => {
                assert(spec_only_cleared(g.cells, o.cells));
                assert forall|player: PlayerKind, kind: PieceKind|
                    #[trigger] spec_piece_count(o.cells, player, kind) <= spec_piece_count(g.cells, player, kind) by {
                    lemma_count_cleared(g.cells, o.cells, player, kind, 49);
                }
            },
            PlayerAction::Surrender { player: p } => {},
        }
    }
}

/// The action takes a piece off the board: some piece other than the one
/// moved is gone, or the moved piece itself did not survive its move.
pub open spec fn spec_removes_piece(before: Seq<Option<Piece>>, after: Seq<Option<Piece>>, action: PlayerAction) -> bool {
    ||| exists|i: int| 0 <= i < before.len() && #[trigger] before[i] is Some && after[i] is None
        && !(action matches PlayerAction::Move { from, .. } && i == from.index)
    ||| action matches PlayerAction::Move { to, .. } && after[to.index as int] is None
}

/// Law: the no-progress counter counts turns since the last capture. An
/// accepted action that takes a piece off the board (a capture, a trap on
/// the mover, a Knight removal) and leaves the game in play resets it to
/// 0; a quiet move adds one, and the quiet move that brings it to the
/// no-progress limit ends the game in a draw.
pub proof fn lemma_no_progress_counter(g: Snap, action: PlayerAction)
    requires
        g.cells.len() == 49,
        g.msc < u16::MAX,
        spec_action_in_bounds(action),
    ensures
        spec_handle_action(g, action) matches Ok(o) ==> ({
            &&& (o.result matches Some(TurnResult::PieceMove { .. }) && g.msc + 1 >= NO_PROGRESS_LIMIT ==> o.state is Draw)
            &&& o.state is Playing ==> {
                &&& spec_removes_piece(g.cells, o.cells, action) ==> o.msc == 0
                &&& (o.result matches Some(TurnResult::PieceMove { .. }) ==> o.msc == g.msc + 1)
            }
        }),
{
    if let PlayerAction::Move { player, from, to } = action {
        lemma_move_counter(g, player, from, to);
    }
    if let PlayerAction::KnightRemoval { player, at } = action {
        if spec_handle_knight_removal(g, player, at) is Ok {
            let end = g.cells.update(at.index as int, None);
            assert(spec_continue(end, player.spec_opposite(), g.history, g.msc, true).2 == 0);
        }
    }
}

proof fn lemma_move_counter(g: Snap, player: PlayerKind, from: Cell, to: Cell)
    requires
        g.cells.len() == 49,
        g.msc < u16::MAX,
        from.index < 49,
    ensures
        spec_handle_move(g, player, from, to) matches Ok(o) ==> ({
            &&& (o.result matches Some(TurnResult::PieceMove { .. }) && g.msc + 1 >= NO_PROGRESS_LIMIT ==> o.state is Draw)
            &&& o.state is Playing ==> {
                &&& spec_removes_piece(g.cells, o.cells, PlayerAction::Move { player, from, to }) ==> o.msc == 0
                &&& (o.result matches Some(TurnResult::PieceMove { .. }) ==> o.msc == g.msc + 1)
            }
        }),
{
    let f = from.index as int;
    let t = to.index as int;
    if spec_handle_move(g, player, from, to) is Ok {
        lemma_move_only_clears(g, player, from, to);
        let o = spec_handle_move(g, player, from, to).unwrap();
        let piece = g.cells[f].unwrap();
        let b = spec_moved(g.cells, f, t, piece);
        let opp = player.spec_opposite();
        if spec_own_crown_trap(b, t, player) {
        } else if spec_crown_capture(b, t, player) is Some {
        } else if spec_self_spy_trap(b, t, player) {
            let end = b.update(t, None);
            assert(spec_continue(end, opp, g.history, g.msc, true).2 == 0);
        } else if spec_piece_captures(b, t, player).len() > 0 {
            let caps = spec_piece_captures(b, t, player);
            let end = spec_apply_captures(b, caps, caps.len() as int, t, piece.kind);
            assert(spec_continue(end, opp, g.history, g.msc, true).2 == 0);
        } else {
            assert(o.cells == b);
            assert(spec_continue(b, opp, g.history, g.msc, false).2 == g.msc + 1);
            assert(o.msc == g.msc + 1);
            assert(o.cells[t] is Some);
            assert forall|i: int| 0 <= i < g.cells.len() && #[trigger] g.cells[i] is Some && o.cells[i] is None implies i == f by {
                if i != f && i != t {
                    assert(o.cells[i] == g.cells[i]);
                }
            }
        }
    }
}

} // verus!
