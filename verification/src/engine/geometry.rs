//! Facts about the board geometry at the level of specifications: every
//! neighbour list, capture shape and scan list names cells on the board,
//! and every capture found on a board names cells on that board.
use vstd::prelude::*;
use crate::engine::captures::{
    spec_archer_capture_at, spec_archer_captures_upto, spec_attackers, spec_capture_scan_cells,
    spec_check_archer_capture, spec_check_crown_capture, spec_check_piece_captures,
    spec_crown_capture_from, spec_find_mover_pair, spec_keep_attackers, spec_keep_not_in,
    spec_knight_capture_shape, spec_owned, spec_partner_from, spec_piece_capture_at,
    spec_piece_captures_upto, PieceCapture,
};
use crate::engine::tables::{
    spec_archer_range, spec_knight_arcs, spec_knight_diagonal_moves, spec_knight_moves, spec_on_board,
    spec_ortho, spec_ortho_skip,
};
use crate::engine::types::{
    spec_board_length, spec_cell_count, spec_x, spec_y, CrownfallBoardVariant, CrownfallPiece,
    CrownfallPlayerKind, CrownfallRules,
};

verus! {

/// Column and row of a cell on the board, and how they make up its index.
pub proof fn lemma_coord(v: CrownfallBoardVariant, i: int)
    requires
        0 <= i < spec_cell_count(v),
    ensures
        0 <= spec_x(v, i) < spec_board_length(v),
        0 <= spec_y(v, i) < spec_board_length(v),
        i == spec_x(v, i) + spec_y(v, i) * spec_board_length(v),
{
}

pub proof fn lemma_ortho_skip_on_board(v: CrownfallBoardVariant, i: int, skip_up: bool, skip_down: bool)
    requires
        0 <= i < spec_cell_count(v),
    ensures
        spec_on_board(v, spec_ortho_skip(v, i, skip_up, skip_down)),
{
    lemma_coord(v, i);
}

pub proof fn lemma_knight_shapes_on_board(v: CrownfallBoardVariant, p: CrownfallPlayerKind, i: int, rules: CrownfallRules)
    requires
        0 <= i < spec_cell_count(v),
    ensures
        spec_on_board(v, spec_ortho(v, i)),
        spec_on_board(v, spec_knight_moves(v, p, i)),
        spec_on_board(v, spec_knight_arcs(v, p, i)),
        spec_on_board(v, spec_knight_diagonal_moves(v, p, i)),
        spec_on_board(v, spec_knight_capture_shape(v, p, i, rules)),
        spec_on_board(v, spec_archer_range(v, i)),
{
    lemma_coord(v, i);
    lemma_ortho_skip_on_board(v, i, false, false);
    lemma_ortho_skip_on_board(v, i, false, true);
    lemma_ortho_skip_on_board(v, i, true, false);
}

pub(crate) proof fn lemma_keep_not_in_from(s: Seq<int>, o: Seq<int>, n: int)
    requires
        0 <= n <= s.len(),
    ensures
        forall|k: int| 0 <= k < spec_keep_not_in(s, o, n).len() ==> s.contains(#[trigger] spec_keep_not_in(s, o, n)[k]),
    decreases n,
{
    if n > 0 {
        lemma_keep_not_in_from(s, o, n - 1);
        let prev = spec_keep_not_in(s, o, n - 1);
        assert(s[n - 1] == s[n - 1]);
        assert forall|k: int| 0 <= k < spec_keep_not_in(s, o, n).len() implies s.contains(#[trigger] spec_keep_not_in(s, o, n)[k]) by {
            if k < prev.len() {
                assert(spec_keep_not_in(s, o, n)[k] == prev[k]);
            } else {
                assert(s[n - 1] == spec_keep_not_in(s, o, n)[k]);
            }
        }
    }
}

proof fn lemma_keep_attackers_from(cells: Seq<Option<CrownfallPiece>>, s: Seq<int>, attacker: CrownfallPlayerKind, knights: bool, n: int)
    requires
        0 <= n <= s.len(),
    ensures
        forall|k: int| 0 <= k < spec_keep_attackers(cells, s, attacker, knights, n).len()
            ==> s.contains(#[trigger] spec_keep_attackers(cells, s, attacker, knights, n)[k])
                && spec_owned(cells[spec_keep_attackers(cells, s, attacker, knights, n)[k]], attacker),
    decreases n,
{
    if n > 0 {
        lemma_keep_attackers_from(cells, s, attacker, knights, n - 1);
        let prev = spec_keep_attackers(cells, s, attacker, knights, n - 1);
        assert forall|k: int| 0 <= k < spec_keep_attackers(cells, s, attacker, knights, n).len()
            implies s.contains(#[trigger] spec_keep_attackers(cells, s, attacker, knights, n)[k])
                && spec_owned(cells[spec_keep_attackers(cells, s, attacker, knights, n)[k]], attacker) by {
            if k < prev.len() {
                assert(spec_keep_attackers(cells, s, attacker, knights, n)[k] == prev[k]);
            } else {
                assert(s[n - 1] == spec_keep_attackers(cells, s, attacker, knights, n)[k]);
            }
        }
    }
}

/// The cells scanned after a move to `to` are on the board.
pub proof fn lemma_scan_on_board(cells: Seq<Option<CrownfallPiece>>, v: CrownfallBoardVariant, to: int, mover: CrownfallPlayerKind, rules: CrownfallRules)
    requires
        0 <= to < spec_cell_count(v),
    ensures
        spec_on_board(v, spec_capture_scan_cells(cells, v, to, mover, rules)),
{
    lemma_knight_shapes_on_board(v, mover, to, rules);
    let o = spec_ortho(v, to);
    let shape = spec_knight_capture_shape(v, mover, to, rules);
    lemma_keep_not_in_from(shape, o, shape.len() as int);
    let scan = spec_capture_scan_cells(cells, v, to, mover, rules);
    assert forall|k: int| 0 <= k < scan.len() implies 0 <= #[trigger] scan[k] < spec_cell_count(v) by {
        if k >= o.len() && scan.len() > o.len() {
            let rest = spec_keep_not_in(shape, o, shape.len() as int);
            assert(scan[k] == rest[k - o.len()]);
            assert(shape.contains(rest[k - o.len()]));
        }
    }
}

/// The attackers of an ordinary capture against a cell on the board are
/// on the board.
pub proof fn lemma_attackers_on_board(cells: Seq<Option<CrownfallPiece>>, v: CrownfallBoardVariant, target: int, attacker: CrownfallPlayerKind, rules: CrownfallRules)
    requires
        0 <= target < spec_cell_count(v),
    ensures
        spec_on_board(v, spec_attackers(cells, v, target, attacker, rules)),
        forall|k: int| 0 <= k < spec_attackers(cells, v, target, attacker, rules).len()
            ==> spec_owned(cells[#[trigger] spec_attackers(cells, v, target, attacker, rules)[k]], attacker),
{
    let o = spec_ortho(v, target);
    let shape = spec_knight_capture_shape(v, attacker.spec_opposite(), target, rules);
    lemma_knight_shapes_on_board(v, attacker.spec_opposite(), target, rules);
    lemma_keep_attackers_from(cells, o, attacker, false, o.len() as int);
    lemma_keep_attackers_from(cells, shape, attacker, true, shape.len() as int);
    let a = spec_keep_attackers(cells, o, attacker, false, o.len() as int);
    let b = spec_keep_attackers(cells, shape, attacker, true, shape.len() as int);
    let att = spec_attackers(cells, v, target, attacker, rules);
    assert forall|k: int| 0 <= k < att.len() implies 0 <= #[trigger] att[k] < spec_cell_count(v) && spec_owned(cells[att[k]], attacker) by {
        if k < a.len() {
            assert(att[k] == a[k]);
            assert(o.contains(a[k]));
        } else {
            assert(att[k] == b[k - a.len()]);
            assert(shape.contains(b[k - a.len()]));
        }
    }
}

proof fn lemma_partner_on_board(cells: Seq<Option<CrownfallPiece>>, v: CrownfallBoardVariant, att: Seq<int>, to: int, j: int)
    requires
        spec_on_board(v, att),
        0 <= to < spec_cell_count(v),
        0 <= j,
    ensures
        spec_partner_from(cells, att, to, j) matches Some(pair) ==> pair.first == to && 0 <= pair.second < spec_cell_count(v)
            && exists|i: int| 0 <= i < att.len() && #[trigger] att[i] == pair.second,
    decreases att.len() - j,
{
    if j < att.len() {
        lemma_partner_on_board(cells, v, att, to, j + 1);
    }
}

/// Every ordinary capture found after a move to `to` names cells on the
/// board: its target and both attackers.
pub proof fn lemma_piece_captures_on_board(cells: Seq<Option<CrownfallPiece>>, v: CrownfallBoardVariant, scan: Seq<int>, n: int, to: int, attacker: CrownfallPlayerKind, rules: CrownfallRules)
    requires
        spec_on_board(v, scan),
        0 <= n <= scan.len(),
        0 <= to < spec_cell_count(v),
    ensures
        forall|k: int| 0 <= k < spec_piece_captures_upto(cells, v, scan, n, to, attacker, rules).len()
            ==> spec_capture_on_board(v, #[trigger] spec_piece_captures_upto(cells, v, scan, n, to, attacker, rules)[k])
                && spec_piece_captures_upto(cells, v, scan, n, to, attacker, rules)[k].pair.first == to
                && spec_owned(cells[spec_piece_captures_upto(cells, v, scan, n, to, attacker, rules)[k].pair.second as int], attacker)
                && !spec_owned(cells[spec_piece_captures_upto(cells, v, scan, n, to, attacker, rules)[k].target as int], attacker)
                && cells[spec_piece_captures_upto(cells, v, scan, n, to, attacker, rules)[k].target as int] is Some,
    decreases n,
{
    if n > 0 {
        lemma_piece_captures_on_board(cells, v, scan, n - 1, to, attacker, rules);
        let c = scan[n - 1];
        lemma_attackers_on_board(cells, v, c, attacker, rules);
        let att = spec_attackers(cells, v, c, attacker, rules);
        lemma_partner_on_board(cells, v, att, to, 0);
        let prev = spec_piece_captures_upto(cells, v, scan, n - 1, to, attacker, rules);
        let all = spec_piece_captures_upto(cells, v, scan, n, to, attacker, rules);
        assert forall|k: int| 0 <= k < all.len() implies spec_capture_on_board(v, #[trigger] all[k])
            && all[k].pair.first == to && spec_owned(cells[all[k].pair.second as int], attacker)
            && !spec_owned(cells[all[k].target as int], attacker) && cells[all[k].target as int] is Some by {
            if k < prev.len() {
                assert(all[k] == prev[k]);
            } else {
                assert(spec_piece_capture_at(cells, v, c, to, attacker, rules) is Some);
                assert(spec_find_mover_pair(cells, v, c, to, attacker, rules) is Some);
                let pair = spec_partner_from(cells, att, to, 0).unwrap();
                let i = choose|i: int| 0 <= i < att.len() && #[trigger] att[i] == pair.second;
                assert(spec_owned(cells[att[i]], attacker));
            }
        }
    }
}

/// A capture's target and attacking pair all lie on the board.
pub open spec fn spec_capture_on_board(v: CrownfallBoardVariant, cap: PieceCapture) -> bool {
    &&& cap.target < spec_cell_count(v)
    &&& cap.pair.first < spec_cell_count(v)
    &&& cap.pair.second < spec_cell_count(v)
}

/// Every Archer shot found on the board hits a cell on the board.
pub proof fn lemma_archer_captures_on_board(cells: Seq<Option<CrownfallPiece>>, v: CrownfallBoardVariant, range: Seq<int>, n: int, attacker: CrownfallPlayerKind)
    requires
        spec_on_board(v, range),
        0 <= n <= range.len(),
    ensures
        forall|k: int| 0 <= k < spec_archer_captures_upto(cells, v, range, n, attacker).len()
            ==> (#[trigger] spec_archer_captures_upto(cells, v, range, n, attacker)[k]).target < spec_cell_count(v)
                && !spec_owned(cells[spec_archer_captures_upto(cells, v, range, n, attacker)[k].target as int], attacker)
                && cells[spec_archer_captures_upto(cells, v, range, n, attacker)[k].target as int] is Some,
    decreases n,
{
    if n > 0 {
        lemma_archer_captures_on_board(cells, v, range, n - 1, attacker);
        let prev = spec_archer_captures_upto(cells, v, range, n - 1, attacker);
        let all = spec_archer_captures_upto(cells, v, range, n, attacker);
        assert forall|k: int| 0 <= k < all.len() implies (#[trigger] all[k]).target < spec_cell_count(v)
            && !spec_owned(cells[all[k].target as int], attacker) && cells[all[k].target as int] is Some by {
            if k < prev.len() {
                assert(all[k] == prev[k]);
            } else {
                assert(spec_archer_capture_at(cells, v, range[n - 1], attacker) is Some);
            }
        }
    }
}

/// The Crown a scan finds is one of the scanned cells.
pub proof fn lemma_crown_capture_on_board(cells: Seq<Option<CrownfallPiece>>, v: CrownfallBoardVariant, scan: Seq<int>, k: int, to: int, attacker: CrownfallPlayerKind, rules: CrownfallRules)
    requires
        spec_on_board(v, scan),
        0 <= k,
    ensures
        spec_crown_capture_from(cells, v, scan, k, to, attacker, rules) matches Some(c) ==> 0 <= c < spec_cell_count(v)
            && cells[c] is Some && !spec_owned(cells[c], attacker),
    decreases scan.len() - k,
{
    if k < scan.len() {
        lemma_crown_capture_on_board(cells, v, scan, k + 1, to, attacker, rules);
    }
}

/// Everything found after a move to `to` on the board lies on the board:
/// the captured Crown, each ordinary capture, and each Archer shot.
pub proof fn lemma_move_findings_on_board(cells: Seq<Option<CrownfallPiece>>, v: CrownfallBoardVariant, to: int, player: CrownfallPlayerKind, rules: CrownfallRules)
    requires
        0 <= to < spec_cell_count(v),
    ensures
        spec_check_crown_capture(cells, v, to, player, rules) matches Some(c) ==> 0 <= c < spec_cell_count(v)
            && cells[c] is Some && !spec_owned(cells[c], player),
        forall|k: int| 0 <= k < spec_check_piece_captures(cells, v, to, player, rules).len()
            ==> spec_capture_on_board(v, #[trigger] spec_check_piece_captures(cells, v, to, player, rules)[k])
                && spec_check_piece_captures(cells, v, to, player, rules)[k].pair.first == to
                && spec_owned(cells[spec_check_piece_captures(cells, v, to, player, rules)[k].pair.second as int], player)
                && !spec_owned(cells[spec_check_piece_captures(cells, v, to, player, rules)[k].target as int], player)
                && cells[spec_check_piece_captures(cells, v, to, player, rules)[k].target as int] is Some,
        forall|k: int| 0 <= k < spec_check_archer_capture(cells, v, to, player).len()
            ==> (#[trigger] spec_check_archer_capture(cells, v, to, player)[k]).target < spec_cell_count(v)
                && !spec_owned(cells[spec_check_archer_capture(cells, v, to, player)[k].target as int], player)
                && cells[spec_check_archer_capture(cells, v, to, player)[k].target as int] is Some,
{
    let scan = spec_capture_scan_cells(cells, v, to, player, rules);
    lemma_scan_on_board(cells, v, to, player, rules);
    lemma_crown_capture_on_board(cells, v, scan, 0, to, player, rules);
    lemma_piece_captures_on_board(cells, v, scan, scan.len() as int, to, player, rules);
    lemma_knight_shapes_on_board(v, player, to, rules);
    let range = spec_archer_range(v, to);
    lemma_archer_captures_on_board(cells, v, range, range.len() as int, player);
}

} // verus!
