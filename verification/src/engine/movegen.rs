//! Move generation for the AI: every legal step of one side, filtered by
//! the mandatory-capture rule, then ordered so that promising moves are
//! searched first.
use vstd::prelude::*;
use crate::engine::board::CrownfallBoardState;
use crate::engine::captures::{
    spec_has_available_capture, spec_is_step, spec_move_candidates, spec_moved, spec_owned,
    spec_step_captures,
};
use crate::engine::tables::{
    archer_range, cell_count, dist, knight_arcs, knight_moves, ortho, spec_archer_range, spec_dist,
    spec_forward, spec_knight_arcs, spec_knight_moves, spec_on_board, spec_ortho, spec_ortho_skip,
    CellList,
};
use crate::engine::types::{
    spec_board_length, spec_cell_count, spec_x, spec_y, CrownfallBoardVariant, CrownfallPiece, CrownfallPieceKind,
    CrownfallPlayerKind, CrownfallRules,
};

verus! {

/// `m = (from, to)` is a step `player` can take: their piece at `from`, and
/// `to` an empty on-board cell of its movement shape.
pub open spec fn spec_legal_step(cells: Seq<Option<CrownfallPiece>>, v: CrownfallBoardVariant, player: CrownfallPlayerKind, rules: CrownfallRules, m: (u8, u8)) -> bool {
    &&& (m.1 as int) < spec_cell_count(v)
    &&& spec_is_step(cells, v, m.0 as int, m.1 as int, rules)
    &&& spec_owned(cells[m.0 as int], player)
}

/// A legal step that the mandatory-capture rule (when on) also allows:
/// while any capturing step exists, only capturing steps are allowed.
pub open spec fn spec_allowed_step(cells: Seq<Option<CrownfallPiece>>, v: CrownfallBoardVariant, player: CrownfallPlayerKind, rules: CrownfallRules, m: (u8, u8)) -> bool {
    &&& spec_legal_step(cells, v, player, rules, m)
    &&& (rules.ruleset.spec_mandatory_capture() && spec_has_available_capture(cells, v, player, rules)
        ==> spec_step_captures(cells, v, m.0 as int, m.1 as int, player, rules))
}

/// `list` holds exactly the allowed steps (in some order).
pub open spec fn spec_move_set(list: Seq<(u8, u8)>, cells: Seq<Option<CrownfallPiece>>, v: CrownfallBoardVariant, player: CrownfallPlayerKind, rules: CrownfallRules) -> bool {
    &&& forall|k: int| 0 <= k < list.len() ==> spec_allowed_step(cells, v, player, rules, #[trigger] list[k])
    &&& forall|m: (u8, u8)| #[trigger] spec_allowed_step(cells, v, player, rules, m) ==> list.contains(m)
}

/// `out` and `inp` hold the same moves.
pub open spec fn spec_same_moves(out: Seq<(u8, u8)>, inp: Seq<(u8, u8)>) -> bool {
    &&& forall|k: int| 0 <= k < out.len() ==> inp.contains(#[trigger] out[k])
    &&& forall|k: int| 0 <= k < inp.len() ==> out.contains(#[trigger] inp[k])
}

proof fn lemma_same_moves_keep_set(out: Seq<(u8, u8)>, inp: Seq<(u8, u8)>, cells: Seq<Option<CrownfallPiece>>, v: CrownfallBoardVariant, player: CrownfallPlayerKind, rules: CrownfallRules)
    requires
        spec_same_moves(out, inp),
        spec_move_set(inp, cells, v, player, rules),
    ensures
        spec_move_set(out, cells, v, player, rules),
{
    assert forall|k: int| 0 <= k < out.len() implies spec_allowed_step(cells, v, player, rules, #[trigger] out[k]) by {
        let j = choose|j: int| 0 <= j < inp.len() && inp[j] == out[k];
        assert(spec_allowed_step(cells, v, player, rules, inp[j]));
    }
    assert forall|m: (u8, u8)| #[trigger] spec_allowed_step(cells, v, player, rules, m) implies out.contains(m) by {
        assert(inp.contains(m));
        let j = choose|j: int| 0 <= j < inp.len() && inp[j] == m;
        assert(out.contains(inp[j]));
    }
}

/// The steps from cell `i` to the empty cells among the first `k` of its
/// candidates, in candidate order.
pub open spec fn spec_steps_from(cells: Seq<Option<CrownfallPiece>>, i: int, cands: Seq<int>, k: int) -> Seq<(u8, u8)>
    decreases k,
{
    if k <= 0 {
        Seq::empty()
    } else {
        let prev = spec_steps_from(cells, i, cands, k - 1);
        if cells[cands[k - 1]].is_none() { prev.push((i as u8, cands[k - 1] as u8)) } else { prev }
    }
}

/// Every step of `player`'s pieces on the cells below `n`, cell by cell and
/// in each piece's candidate order.
pub open spec fn spec_gen_moves(cells: Seq<Option<CrownfallPiece>>, v: CrownfallBoardVariant, player: CrownfallPlayerKind, rules: CrownfallRules, n: int) -> Seq<(u8, u8)>
    decreases n,
{
    if n <= 0 {
        Seq::empty()
    } else {
        let prev = spec_gen_moves(cells, v, player, rules, n - 1);
        if spec_owned(cells[n - 1], player) {
            let c = spec_move_candidates(cells, v, n - 1, rules);
            prev + spec_steps_from(cells, n - 1, c, c.len() as int)
        } else {
            prev
        }
    }
}

/// The capturing steps among the first `n` of `list`, in order.
pub open spec fn spec_capturing_only(cells: Seq<Option<CrownfallPiece>>, v: CrownfallBoardVariant, player: CrownfallPlayerKind, rules: CrownfallRules, list: Seq<(u8, u8)>, n: int) -> Seq<(u8, u8)>
    decreases n,
{
    if n <= 0 {
        Seq::empty()
    } else {
        let prev = spec_capturing_only(cells, v, player, rules, list, n - 1);
        let m = list[n - 1];
        if spec_step_captures(cells, v, m.0 as int, m.1 as int, player, rules) { prev.push(m) } else { prev }
    }
}

/// The move list the search works through: every step, only the capturing
/// ones when the mandatory-capture rule is on and one exists, ordered tier
/// by tier (see `spec_move_tier`).
pub open spec fn spec_collect(cells: Seq<Option<CrownfallPiece>>, v: CrownfallBoardVariant, player: CrownfallPlayerKind, rules: CrownfallRules, enemy_crown: Option<usize>) -> Seq<(u8, u8)> {
    let all = spec_gen_moves(cells, v, player, rules, spec_cell_count(v));
    let list = if rules.ruleset.spec_mandatory_capture() && spec_has_available_capture(cells, v, player, rules) {
        spec_capturing_only(cells, v, player, rules, all, all.len() as int)
    } else {
        all
    };
    spec_tiers_below(cells, v, player, rules, enemy_crown, list, 3)
}

/// Pushing a value that a duplicate-free sequence lacks keeps it free of
/// duplicates.
pub(crate) proof fn lemma_push_fresh<A>(s: Seq<A>, x: A)
    requires
        s.no_duplicates(),
        forall|k: int| 0 <= k < s.len() ==> #[trigger] s[k] != x,
    ensures
        s.push(x).no_duplicates(),
{
    let t = s.push(x);
    assert forall|a: int, b: int| 0 <= a < t.len() && 0 <= b < t.len() && a != b implies t[a] != t[b] by {
        if a < s.len() && b < s.len() {
            assert(t[a] == s[a] && t[b] == s[b]);
        } else if a < s.len() {
            assert(t[a] == s[a]);
        } else {
            assert(t[b] == s[b]);
        }
    }
}

/// The orthogonal neighbour list names each cell once.
proof fn lemma_ortho_skip_distinct(v: CrownfallBoardVariant, i: int, skip_up: bool, skip_down: bool)
    ensures
        spec_ortho_skip(v, i, skip_up, skip_down).no_duplicates(),
{
    let l = spec_board_length(v);
    assert(l >= 2);
    let x = spec_x(v, i);
    let y = spec_y(v, i);
    let s0 = Seq::<int>::empty();
    let s1 = if y > 0 && !skip_up { s0.push(i - l) } else { s0 };
    let s2 = if y + 1 < l && !skip_down { s1.push(i + l) } else { s1 };
    let s3 = if x > 0 { s2.push(i - 1) } else { s2 };
    assert(s0.no_duplicates());
    if y > 0 && !skip_up {
        lemma_push_fresh(s0, i - l);
    }
    assert(forall|k: int| 0 <= k < s1.len() ==> #[trigger] s1[k] == i - l);
    if y + 1 < l && !skip_down {
        lemma_push_fresh(s1, i + l);
    }
    assert(forall|k: int| 0 <= k < s2.len() ==> #[trigger] s2[k] == i - l || s2[k] == i + l);
    if x > 0 {
        lemma_push_fresh(s2, i - 1);
    }
    assert(forall|k: int| 0 <= k < s3.len() ==> #[trigger] s3[k] == i - l || s3[k] == i + l || s3[k] == i - 1);
    if x + 1 < l {
        lemma_push_fresh(s3, i + 1);
    }
}

/// A piece's movement shape names each cell once.
pub(crate) proof fn lemma_candidates_distinct(cells: Seq<Option<CrownfallPiece>>, v: CrownfallBoardVariant, cell: int, rules: CrownfallRules)
    ensures
        spec_move_candidates(cells, v, cell, rules).no_duplicates(),
{
    lemma_ortho_skip_distinct(v, cell, false, false);
    lemma_ortho_skip_distinct(v, cell, false, true);
    lemma_ortho_skip_distinct(v, cell, true, false);
    if cells[cell] is Some {
        let p = cells[cell].unwrap().spec_player();
        let x = spec_x(v, cell);
        let f = spec_forward(v, p, cell);
        let s1 = if x > 0 { seq![f - 1] } else { Seq::<int>::empty() };
        assert(s1.no_duplicates());
        if x + 1 < spec_board_length(v) {
            lemma_push_fresh(s1, f + 1);
        }
    }
}

/// Every legal step of `player` whose piece stands on a cell below `index`
/// (all steps, capturing or not), with one capture flag per step.
fn gen_steps(board: &CrownfallBoardState, player: CrownfallPlayerKind, rules: CrownfallRules, mandatory: bool) -> (r: (Vec<(u8, u8)>, Vec<bool>, bool))
    requires
        mandatory == rules.ruleset.spec_mandatory_capture(),
    ensures
        ({
            let (moves, flags, any) = r;
            let cells = board@;
            let v = board.spec_variant();
            &&& moves.len() == flags.len()
            &&& forall|k: int| 0 <= k < moves.len() ==> spec_legal_step(cells, v, player, rules, #[trigger] moves@[k])
            &&& forall|k: int| 0 <= k < moves.len() ==> (mandatory ==> flags@[k] == spec_step_captures(cells, v, (#[trigger] moves@[k]).0 as int, moves@[k].1 as int, player, rules))
            &&& forall|m: (u8, u8)| #[trigger] spec_legal_step(cells, v, player, rules, m) ==> moves@.contains(m)
            &&& any == (mandatory && spec_has_available_capture(cells, v, player, rules))
            &&& forall|k: int| 0 <= k < moves.len() ==> (#[trigger] flags@[k] ==> mandatory)
            &&& moves@.no_duplicates()
            &&& moves@ == spec_gen_moves(cells, v, player, rules, spec_cell_count(v))
        }),
{
    proof {
        board.lemma_len();
    }
    let v = board.variant();
    let n = cell_count(v);
    let ghost cells = board@;
    let mut moves: Vec<(u8, u8)> = Vec::new();
    let mut flags: Vec<bool> = Vec::new();
    let mut any = false;
    // One board copy for the capture probes: each step is played as two
    // cell writes and undone the same way.
    let mut scratch = *board;
    let mut index: usize = 0;
    while index < n
        invariant
            v == board.spec_variant(),
            n == spec_cell_count(v),
            cells == board@,
            cells.len() == n,
            scratch@ == cells,
            scratch.spec_variant() == v,
            mandatory == rules.ruleset.spec_mandatory_capture(),
            index <= n,
            moves.len() == flags.len(),
            forall|k: int| 0 <= k < moves.len() ==> spec_legal_step(cells, v, player, rules, #[trigger] moves@[k]),
            forall|k: int| 0 <= k < moves.len() ==> (#[trigger] moves@[k]).0 < index,
            moves@.no_duplicates(),
            moves@ == spec_gen_moves(cells, v, player, rules, index as int),
            forall|k: int| 0 <= k < moves.len() ==> (mandatory ==> flags@[k] == spec_step_captures(cells, v, (#[trigger] moves@[k]).0 as int, moves@[k].1 as int, player, rules)),
            forall|k: int| 0 <= k < moves.len() ==> (#[trigger] flags@[k] ==> mandatory),
            any == (exists|k: int| 0 <= k < moves.len() && #[trigger] flags@[k]),
            forall|f: int| 0 <= f < index ==> spec_on_board(v, #[trigger] spec_move_candidates(cells, v, f, rules)),
            forall|f: int, t: int|
                0 <= f < index && #[trigger] spec_is_step(cells, v, f, t, rules) && spec_owned(cells[f], player)
                    ==> moves@.contains((f as u8, t as u8)),
        decreases n - index,
    {
        let cands = board.move_candidates(index, rules);
        let ghost cv = cands@;
        proof {
            lemma_candidates_distinct(cells, v, index as int, rules);
        }
        match board.get(index) {
            Some(piece) => {
                if piece.player() == player {
                    let mut k: usize = 0;
                    while k < cands.len
                        invariant
                            v == board.spec_variant(),
                            n == spec_cell_count(v),
                            cells == board@,
                            cells.len() == n,
                            scratch@ == cells,
                            scratch.spec_variant() == v,
                            mandatory == rules.ruleset.spec_mandatory_capture(),
                            index < n,
                            cells[index as int] == Some(piece),
                            piece.spec_player() == player,
                            cands.wf(),
                            cv == cands@,
                            cv == spec_move_candidates(cells, v, index as int, rules),
                            spec_on_board(v, cv),
                            k <= cands.len,
                            moves.len() == flags.len(),
                            forall|kk: int| 0 <= kk < moves.len() ==> spec_legal_step(cells, v, player, rules, #[trigger] moves@[kk]),
                            forall|kk: int| 0 <= kk < moves.len() ==> (#[trigger] moves@[kk]).0 <= index,
                            cv.no_duplicates(),
                            moves@.no_duplicates(),
                            moves@ == spec_gen_moves(cells, v, player, rules, index as int) + spec_steps_from(cells, index as int, cv, k as int),
                            forall|kk: int| 0 <= kk < moves.len() && (#[trigger] moves@[kk]).0 == index
                                ==> exists|j: int| 0 <= j < k && #[trigger] cv[j] == moves@[kk].1 as int,
                            forall|kk: int| 0 <= kk < moves.len() ==> (mandatory ==> flags@[kk] == spec_step_captures(cells, v, (#[trigger] moves@[kk]).0 as int, moves@[kk].1 as int, player, rules)),
                            forall|kk: int| 0 <= kk < moves.len() ==> (#[trigger] flags@[kk] ==> mandatory),
                            any == (exists|kk: int| 0 <= kk < moves.len() && #[trigger] flags@[kk]),
                            forall|f: int| 0 <= f < index ==> spec_on_board(v, #[trigger] spec_move_candidates(cells, v, f, rules)),
                            forall|f: int, t: int|
                                0 <= f < index && #[trigger] spec_is_step(cells, v, f, t, rules) && spec_owned(cells[f], player)
                                    ==> moves@.contains((f as u8, t as u8)),
                            forall|kk: int| 0 <= kk < k && cells[#[trigger] cv[kk]].is_none() ==> moves@.contains((index as u8, cv[kk] as u8)),
                        decreases cands.len - k,
                    {
                        let d = cands.get(k);
                        if board.get(d).is_none() {
                            let mut c = false;
                            if mandatory {
                                scratch.set(index, None);
                                scratch.set(d, Some(piece));
                                assert(scratch@ == spec_moved(cells, index as int, d as int, piece));
                                c = scratch.move_captures_something(d, player, piece.kind(), rules);
                                scratch.set(d, None);
                                scratch.set(index, Some(piece));
                                assert(scratch@ =~= cells);
                            }
                            let m: (u8, u8) = (index as u8, d as u8);
                            let ghost before_moves = moves@;
                            let ghost before_flags = flags@;
                            proof {
                                assert(cv[k as int] == d);
                                assert forall|kk: int| 0 <= kk < before_moves.len() implies #[trigger] before_moves[kk] != m by {
                                    if before_moves[kk].0 == index {
                                        let j = choose|j: int| 0 <= j < k && #[trigger] cv[j] == before_moves[kk].1 as int;
                                        assert(cv[j] != cv[k as int]);
                                    }
                                }
                                lemma_push_fresh(before_moves, m);
                            }
                            moves.push(m);
                            flags.push(c);
                            proof {
                                assert(cv[k as int] == d);
                                assert(moves@ =~= spec_gen_moves(cells, v, player, rules, index as int) + spec_steps_from(cells, index as int, cv, k + 1));
                                assert forall|kk: int| 0 <= kk < moves.len() && (#[trigger] moves@[kk]).0 == index
                                    implies exists|j: int| 0 <= j < k + 1 && #[trigger] cv[j] == moves@[kk].1 as int by {
                                    if kk < before_moves.len() {
                                        assert(moves@[kk] == before_moves[kk]);
                                        let j = choose|j: int| 0 <= j < k && #[trigger] cv[j] == before_moves[kk].1 as int;
                                        assert(cv[j] == moves@[kk].1 as int);
                                    } else {
                                        assert(cv[k as int] == moves@[kk].1 as int);
                                    }
                                }
                                assert(spec_is_step(cells, v, index as int, d as int, rules));
                                assert(moves@[moves.len() - 1] == m);
                                assert forall|kk: int| 0 <= kk < before_moves.len() implies moves@[kk] == before_moves[kk] && flags@[kk] == before_flags[kk] by {}
                                assert forall|f: int, t: int|
                                    0 <= f < index && #[trigger] spec_is_step(cells, v, f, t, rules) && spec_owned(cells[f], player)
                                        implies moves@.contains((f as u8, t as u8)) by {
                                    assert(before_moves.contains((f as u8, t as u8)));
                                    let j = choose|j: int| 0 <= j < before_moves.len() && before_moves[j] == (f as u8, t as u8);
                                    assert(moves@[j] == (f as u8, t as u8));
                                }
                                assert forall|kk: int| 0 <= kk < k + 1 && cells[#[trigger] cv[kk]].is_none() implies moves@.contains((index as u8, cv[kk] as u8)) by {
                                    if kk < k {
                                        assert(before_moves.contains((index as u8, cv[kk] as u8)));
                                        let j = choose|j: int| 0 <= j < before_moves.len() && before_moves[j] == (index as u8, cv[kk] as u8);
                                        assert(moves@[j] == (index as u8, cv[kk] as u8));
                                    } else {
                                        assert(moves@[moves.len() - 1] == (index as u8, cv[kk] as u8));
                                    }
                                }
                                if c {
                                    assert(flags@[flags.len() - 1]);
                                }
                                if any {
                                    let j = choose|j: int| 0 <= j < before_moves.len() && #[trigger] before_flags[j];
                                    assert(flags@[j]);
                                }
                            }
                            any = any || c;
                        }
                        else {
                            proof {
                                assert(spec_steps_from(cells, index as int, cv, k + 1) == spec_steps_from(cells, index as int, cv, k as int));
                            }
                        }
                        k = k + 1;
                    }
                    proof {
                        assert(moves@ =~= spec_gen_moves(cells, v, player, rules, index as int + 1));
                        assert forall|f: int, t: int|
                            0 <= f < index + 1 && #[trigger] spec_is_step(cells, v, f, t, rules) && spec_owned(cells[f], player)
                                implies moves@.contains((f as u8, t as u8)) by {
                            if f == index {
                                let kk = choose|kk: int| 0 <= kk < cv.len() && cv[kk] == t;
                                assert(cells[cv[kk]].is_none());
                            }
                        }
                    }
                }
            },
            None => {},
        }
        index = index + 1;
    }
    proof {
        let mv = moves@;
        assert forall|m: (u8, u8)| #[trigger] spec_legal_step(cells, v, player, rules, m) implies mv.contains(m) by {
            assert(spec_is_step(cells, v, m.0 as int, m.1 as int, rules));
            assert(((m.0 as int) as u8, (m.1 as int) as u8) == m);
        }
        if mandatory && spec_has_available_capture(cells, v, player, rules) {
            let (f, t) = choose|f: int, t: int|
                #![trigger spec_move_candidates(cells, v, f, rules).contains(t)]
                spec_is_step(cells, v, f, t, rules) && spec_owned(cells[f], player) && spec_step_captures(cells, v, f, t, player, rules);
            assert(spec_is_step(cells, v, f, t, rules));
            assert(mv.contains((f as u8, t as u8)));
            let j = choose|j: int| 0 <= j < mv.len() && mv[j] == (f as u8, t as u8);
            assert(flags@[j]);
        }
        if any {
            let j = choose|j: int| 0 <= j < moves.len() && #[trigger] flags@[j];
            let m = mv[j];
            assert(spec_legal_step(cells, v, player, rules, m));
            assert(spec_move_candidates(cells, v, m.0 as int, rules).contains(m.1 as int));
        }
    }
    (moves, flags, any)
}

/// Legal moves for `player`, honouring the mandatory-capture rule: when it
/// is on and any capturing step exists, only capturing steps are listed.
/// `enemy_crown` only steers the order (see `order_moves`).
pub(crate) fn collect_moves(board: &CrownfallBoardState, player: CrownfallPlayerKind, rules: CrownfallRules, enemy_crown: Option<usize>) -> (r: Vec<(u8, u8)>)
    requires
        enemy_crown matches Some(c) ==> c < spec_cell_count(board.spec_variant()),
    ensures
        spec_move_set(r@, board@, board.spec_variant(), player, rules),
        r@.no_duplicates(),
        r@ == spec_collect(board@, board.spec_variant(), player, rules, enemy_crown),
{
    let ghost cells = board@;
    let ghost v = board.spec_variant();
    let mandatory = rules.ruleset.mandatory_capture();
    let (moves, flags, any) = gen_steps(board, player, rules, mandatory);
    let list = if any {
        let mut kept: Vec<(u8, u8)> = Vec::new();
        // For each kept move, the position in `moves` it was taken from.
        let ghost mut src: Seq<int> = Seq::empty();
        let mut j: usize = 0;
        while j < moves.len()
            invariant
                moves.len() == flags.len(),
                j <= moves.len(),
                any == (mandatory && spec_has_available_capture(cells, v, player, rules)),
                any,
                forall|k: int| 0 <= k < moves.len() ==> spec_legal_step(cells, v, player, rules, #[trigger] moves@[k]),
                forall|k: int| 0 <= k < moves.len() ==> (mandatory ==> flags@[k] == spec_step_captures(cells, v, (#[trigger] moves@[k]).0 as int, moves@[k].1 as int, player, rules)),
                forall|k: int| 0 <= k < kept.len() ==> spec_allowed_step(cells, v, player, rules, #[trigger] kept@[k]),
                forall|k: int| 0 <= k < j && #[trigger] flags@[k] ==> kept@.contains(moves@[k]),
                moves@.no_duplicates(),
                kept@.no_duplicates(),
                src.len() == kept.len(),
                forall|p: int| 0 <= p < kept.len() ==> 0 <= #[trigger] src[p] < j && moves@[src[p]] == kept@[p],
                kept@ == spec_capturing_only(cells, v, player, rules, moves@, j as int),
            decreases moves.len() - j,
        {
            if flags[j] {
                let ghost before = kept@;
                proof {
                    assert forall|p: int| 0 <= p < before.len() implies #[trigger] before[p] != moves@[j as int] by {
                        assert(moves@[src[p]] == before[p]);
                    }
                    lemma_push_fresh(before, moves@[j as int]);
                }
                kept.push(moves[j]);
                proof {
                    assert(spec_step_captures(cells, v, moves@[j as int].0 as int, moves@[j as int].1 as int, player, rules));
                    assert(kept@ =~= spec_capturing_only(cells, v, player, rules, moves@, j + 1));
                    src = src.push(j as int);
                    assert(kept@[kept.len() - 1] == moves@[j as int]);
                    assert forall|k: int| 0 <= k < j + 1 && #[trigger] flags@[k] implies kept@.contains(moves@[k]) by {
                        if k < j {
                            let i = choose|i: int| 0 <= i < before.len() && before[i] == moves@[k];
                            assert(kept@[i] == moves@[k]);
                        }
                    }
                }
            } else {
                proof {
                    assert(!spec_step_captures(cells, v, moves@[j as int].0 as int, moves@[j as int].1 as int, player, rules));
                    assert(kept@ =~= spec_capturing_only(cells, v, player, rules, moves@, j + 1));
                }
            }
            j = j + 1;
        }
        proof {
            assert forall|m: (u8, u8)| #[trigger] spec_allowed_step(cells, v, player, rules, m) implies kept@.contains(m) by {
                assert(spec_legal_step(cells, v, player, rules, m));
                let i = choose|i: int| 0 <= i < moves.len() && moves@[i] == m;
                assert(flags@[i]);
            }
        }
        kept
    } else {
        proof {
            assert forall|m: (u8, u8)| #[trigger] spec_allowed_step(cells, v, player, rules, m) implies moves@.contains(m) by {
                assert(spec_legal_step(cells, v, player, rules, m));
            }
        }
        moves
    };
    order_moves(board, list, player, rules, enemy_crown)
}

/// Some cell of `list` holds a piece of `player`'s opponent.
pub open spec fn spec_enemy_in(cells: Seq<Option<CrownfallPiece>>, list: Seq<int>, player: CrownfallPlayerKind) -> bool {
    exists|k: int| 0 <= k < list.len() && #[trigger] cells[list[k]] is Some && cells[list[k]].unwrap().spec_player() != player
}

/// The destination `to` of the piece at `from` touches an enemy piece:
/// orthogonally, through a Knight's capture shape, or within an Archer's
/// range.
pub open spec fn spec_tactical(cells: Seq<Option<CrownfallPiece>>, v: CrownfallBoardVariant, from: int, to: int, player: CrownfallPlayerKind, rules: CrownfallRules) -> bool {
    ||| spec_enemy_in(cells, spec_ortho(v, to), player)
    ||| match cells[from] {
        Some(p) => if p.spec_kind() == CrownfallPieceKind::Knight {
            spec_enemy_in(cells, if rules.ruleset.spec_knights_move_diagonally() {
                spec_knight_moves(v, player, to)
            } else {
                spec_knight_arcs(v, player, to)
            }, player)
        } else if p.spec_kind() == CrownfallPieceKind::Archer {
            spec_enemy_in(cells, spec_archer_range(v, to), player)
        } else {
            false
        },
        None => false,
    }
}

/// The search-order tier of the step `from -> to`: 0 when tactical, 1 for a
/// quiet step that closes in on the enemy Crown, 2 otherwise.
pub open spec fn spec_move_tier(cells: Seq<Option<CrownfallPiece>>, v: CrownfallBoardVariant, from: int, to: int, player: CrownfallPlayerKind, rules: CrownfallRules, enemy_crown: Option<usize>) -> u8 {
    if spec_tactical(cells, v, from, to, player, rules) {
        0
    } else {
        match enemy_crown {
            Some(c) => if spec_dist(v, c as int, to) < spec_dist(v, c as int, from) { 1 } else { 2 },
            None => 2,
        }
    }
}

/// The moves among the first `n` of `list` whose tier is `t`, in order.
pub open spec fn spec_in_tier(cells: Seq<Option<CrownfallPiece>>, v: CrownfallBoardVariant, player: CrownfallPlayerKind, rules: CrownfallRules, enemy_crown: Option<usize>, list: Seq<(u8, u8)>, t: u8, n: int) -> Seq<(u8, u8)>
    decreases n,
{
    if n <= 0 {
        Seq::empty()
    } else {
        let prev = spec_in_tier(cells, v, player, rules, enemy_crown, list, t, n - 1);
        let m = list[n - 1];
        if spec_move_tier(cells, v, m.0 as int, m.1 as int, player, rules, enemy_crown) == t { prev.push(m) } else { prev }
    }
}

/// `list` reordered tier by tier for the tiers below `t`, keeping the
/// relative order within each tier.
pub open spec fn spec_tiers_below(cells: Seq<Option<CrownfallPiece>>, v: CrownfallBoardVariant, player: CrownfallPlayerKind, rules: CrownfallRules, enemy_crown: Option<usize>, list: Seq<(u8, u8)>, t: int) -> Seq<(u8, u8)>
    decreases t,
{
    if t <= 0 {
        Seq::empty()
    } else {
        spec_tiers_below(cells, v, player, rules, enemy_crown, list, t - 1)
            + spec_in_tier(cells, v, player, rules, enemy_crown, list, (t - 1) as u8, list.len() as int)
    }
}

/// `cells[n]` holds a piece of `player`'s opponent.
fn enemy_at(board: &CrownfallBoardState, n: usize, player: CrownfallPlayerKind) -> (r: bool)
    requires
        n < board@.len(),
    ensures
        r == (board@[n as int] is Some && board@[n as int].unwrap().spec_player() != player),
{
    match board.get(n) {
        Some(p) => p.player() != player,
        None => false,
    }
}

/// Some cell of `list` holds an enemy piece.
fn any_enemy(board: &CrownfallBoardState, list: &CellList, player: CrownfallPlayerKind) -> (r: bool)
    requires
        list.wf(),
        spec_on_board(board.spec_variant(), list@),
    ensures
        r == spec_enemy_in(board@, list@, player),
{
    proof {
        board.lemma_len();
    }
    let mut k: usize = 0;
    while k < list.len
        invariant
            list.wf(),
            spec_on_board(board.spec_variant(), list@),
            board@.len() == spec_cell_count(board.spec_variant()),
            k <= list.len,
            forall|j: int| 0 <= j < k ==> !(#[trigger] board@[list@[j]] is Some && board@[list@[j]].unwrap().spec_player() != player),
        decreases list.len - k,
    {
        if enemy_at(board, list.get(k), player) {
            return true;
        }
        k = k + 1;
    }
    false
}

/// The search-order tier of a move: 0 when its destination touches an
/// enemy piece (plain adjacency, the Knight capture shape or an Archer's
/// range), 1 for a quiet move that closes in on the enemy Crown, 2 for the
/// rest.
fn move_tier(board: &CrownfallBoardState, from: usize, to: usize, player: CrownfallPlayerKind, rules: CrownfallRules, enemy_crown: Option<usize>) -> (r: u8)
    requires
        from < spec_cell_count(board.spec_variant()),
        to < spec_cell_count(board.spec_variant()),
        enemy_crown matches Some(c) ==> c < spec_cell_count(board.spec_variant()),
    ensures
        r == spec_move_tier(board@, board.spec_variant(), from as int, to as int, player, rules, enemy_crown),
        r < 3,
{
    proof {
        board.lemma_len();
    }
    let v = board.variant();
    let mut tactical = any_enemy(board, &ortho(v, to), player);
    if !tactical {
        tactical = match board.get(from) {
            Some(piece) => match piece.kind() {
                CrownfallPieceKind::Knight => {
                    let arcs = if rules.ruleset.knights_move_diagonally() {
                        knight_moves(v, player, to)
                    } else {
                        knight_arcs(v, player, to)
                    };
                    any_enemy(board, &arcs, player)
                },
                CrownfallPieceKind::Archer => any_enemy(board, &archer_range(v, to), player),
                _ => false,
            },
            None => false,
        };
    }
    if tactical {
        0
    } else {
        match enemy_crown {
            Some(c) => if dist(v, c, to) < dist(v, c, from) { 1 } else { 2 },
            None => 2,
        }
    }
}

proof fn lemma_short_list_ordered(cells: Seq<Option<CrownfallPiece>>, v: CrownfallBoardVariant, player: CrownfallPlayerKind, rules: CrownfallRules, enemy_crown: Option<usize>, list: Seq<(u8, u8)>)
    requires
        list.len() < 2,
    ensures
        list == spec_tiers_below(cells, v, player, rules, enemy_crown, list, 3),
{
    let n = list.len() as int;
    let t0 = spec_in_tier(cells, v, player, rules, enemy_crown, list, 0, n);
    let t1 = spec_in_tier(cells, v, player, rules, enemy_crown, list, 1, n);
    let t2 = spec_in_tier(cells, v, player, rules, enemy_crown, list, 2, n);
    let b1 = spec_tiers_below(cells, v, player, rules, enemy_crown, list, 1);
    let b2 = spec_tiers_below(cells, v, player, rules, enemy_crown, list, 2);
    let b3 = spec_tiers_below(cells, v, player, rules, enemy_crown, list, 3);
    assert(spec_tiers_below(cells, v, player, rules, enemy_crown, list, 0) == Seq::<(u8, u8)>::empty());
    assert(b1 == Seq::<(u8, u8)>::empty() + t0);
    assert(b2 == b1 + t1);
    assert(b3 == b2 + t2);
    if n == 1 {
        let m = list[0];
        let t = spec_move_tier(cells, v, m.0 as int, m.1 as int, player, rules, enemy_crown);
        let e = spec_in_tier(cells, v, player, rules, enemy_crown, list, 0, 0);
        assert(e == Seq::<(u8, u8)>::empty());
        assert(spec_in_tier(cells, v, player, rules, enemy_crown, list, 1, 0) == Seq::<(u8, u8)>::empty());
        assert(spec_in_tier(cells, v, player, rules, enemy_crown, list, 2, 0) == Seq::<(u8, u8)>::empty());
        if t == 0 {
            assert(t0 =~= seq![m]);
            assert(t1 =~= Seq::<(u8, u8)>::empty());
            assert(t2 =~= Seq::<(u8, u8)>::empty());
        } else if t == 1 {
            assert(t0 =~= Seq::<(u8, u8)>::empty());
            assert(t1 =~= seq![m]);
            assert(t2 =~= Seq::<(u8, u8)>::empty());
        } else {
            assert(t0 =~= Seq::<(u8, u8)>::empty());
            assert(t1 =~= Seq::<(u8, u8)>::empty());
            assert(t2 =~= seq![m]);
        }
        assert(b3 =~= list);
    } else {
        assert(t0 =~= Seq::<(u8, u8)>::empty());
        assert(t1 =~= Seq::<(u8, u8)>::empty());
        assert(t2 =~= Seq::<(u8, u8)>::empty());
        assert(b3 =~= list);
    }
}

/// Reorders `list` into three tiers (see `move_tier`), keeping the relative
/// order within each tier. Ordering never changes which moves are listed.
fn order_moves(board: &CrownfallBoardState, list: Vec<(u8, u8)>, player: CrownfallPlayerKind, rules: CrownfallRules, enemy_crown: Option<usize>) -> (r: Vec<(u8, u8)>)
    requires
        spec_move_set(list@, board@, board.spec_variant(), player, rules),
        enemy_crown matches Some(c) ==> c < spec_cell_count(board.spec_variant()),
        list@.no_duplicates(),
    ensures
        spec_move_set(r@, board@, board.spec_variant(), player, rules),
        r@.no_duplicates(),
        r@ == spec_tiers_below(board@, board.spec_variant(), player, rules, enemy_crown, list@, 3),
{
    if list.len() < 2 {
        proof {
            lemma_short_list_ordered(board@, board.spec_variant(), player, rules, enemy_crown, list@);
        }
        return list;
    }
    let ghost cells = board@;
    let ghost v = board.spec_variant();
    let mut tiers: Vec<u8> = Vec::new();
    let mut i: usize = 0;
    while i < list.len()
        invariant
            cells == board@,
            v == board.spec_variant(),
            spec_move_set(list@, cells, v, player, rules),
            enemy_crown matches Some(c) ==> c < spec_cell_count(v),
            i <= list.len(),
            tiers.len() == i,
            forall|k: int| 0 <= k < i ==> #[trigger] tiers@[k] < 3,
            forall|k: int| 0 <= k < i ==> #[trigger] tiers@[k] == spec_move_tier(cells, v, list@[k].0 as int, list@[k].1 as int, player, rules, enemy_crown),
        decreases list.len() - i,
    {
        let (from, to) = list[i];
        assert(spec_allowed_step(cells, v, player, rules, list@[i as int]));
        let t = move_tier(board, from as usize, to as usize, player, rules, enemy_crown);
        tiers.push(t);
        i = i + 1;
    }
    let mut out: Vec<(u8, u8)> = Vec::new();
    // For each listed move, the position in `list` it was taken from.
    let ghost mut src: Seq<int> = Seq::empty();
    let mut tier: u8 = 0;
    while tier < 3
        invariant
            tiers.len() == list.len(),
            forall|k: int| 0 <= k < tiers.len() ==> #[trigger] tiers@[k] < 3,
            tier <= 3,
            forall|k: int| 0 <= k < out.len() ==> list@.contains(#[trigger] out@[k]),
            forall|k: int| 0 <= k < list.len() && #[trigger] tiers@[k] < tier ==> out@.contains(list@[k]),
            forall|k: int| 0 <= k < list.len() ==> #[trigger] tiers@[k] == spec_move_tier(cells, v, list@[k].0 as int, list@[k].1 as int, player, rules, enemy_crown),
            out@ == spec_tiers_below(cells, v, player, rules, enemy_crown, list@, tier as int),
            list@.no_duplicates(),
            out@.no_duplicates(),
            src.len() == out.len(),
            forall|p: int| 0 <= p < out.len() ==> 0 <= #[trigger] src[p] < list.len() && list@[src[p]] == out@[p] && tiers@[src[p]] < tier,
        decreases 3 - tier,
    {
        let ghost below = out@;
        let mut j: usize = 0;
        while j < list.len()
            invariant
                tiers.len() == list.len(),
                tier < 3,
                j <= list.len(),
                forall|k: int| 0 <= k < list.len() ==> #[trigger] tiers@[k] == spec_move_tier(cells, v, list@[k].0 as int, list@[k].1 as int, player, rules, enemy_crown),
                below == spec_tiers_below(cells, v, player, rules, enemy_crown, list@, tier as int),
                out@ == below + spec_in_tier(cells, v, player, rules, enemy_crown, list@, tier, j as int),
                forall|k: int| 0 <= k < out.len() ==> list@.contains(#[trigger] out@[k]),
                forall|k: int| 0 <= k < list.len() && #[trigger] tiers@[k] < tier ==> out@.contains(list@[k]),
                forall|k: int| 0 <= k < j && #[trigger] tiers@[k] == tier ==> out@.contains(list@[k]),
                list@.no_duplicates(),
                out@.no_duplicates(),
                src.len() == out.len(),
                forall|p: int| 0 <= p < out.len() ==> 0 <= #[trigger] src[p] < list.len() && list@[src[p]] == out@[p]
                    && (tiers@[src[p]] < tier || (tiers@[src[p]] == tier && src[p] < j)),
            decreases list.len() - j,
        {
            let ghost prev_tier = spec_in_tier(cells, v, player, rules, enemy_crown, list@, tier, j as int);
            if tiers[j] == tier {
                let ghost before = out@;
                proof {
                    assert forall|p: int| 0 <= p < before.len() implies #[trigger] before[p] != list@[j as int] by {
                        assert(list@[src[p]] == before[p] && src[p] != j);
                    }
                    lemma_push_fresh(before, list@[j as int]);
                }
                out.push(list[j]);
                proof {
                    src = src.push(j as int);
                }
                assert(out@ =~= below + prev_tier.push(list@[j as int]));
                proof {
                    assert(out@[out.len() - 1] == list@[j as int]);
                    assert forall|k: int| 0 <= k < out.len() implies list@.contains(#[trigger] out@[k]) by {
                        if k < before.len() {
                            assert(out@[k] == before[k]);
                        } else {
                            assert(list@[j as int] == out@[k]);
                        }
                    }
                    assert forall|k: int| 0 <= k < list.len() && #[trigger] tiers@[k] < tier implies out@.contains(list@[k]) by {
                        let i = choose|i: int| 0 <= i < before.len() && before[i] == list@[k];
                        assert(out@[i] == list@[k]);
                    }
                    assert forall|k: int| 0 <= k < j + 1 && #[trigger] tiers@[k] == tier implies out@.contains(list@[k]) by {
                        if k < j {
                            let i = choose|i: int| 0 <= i < before.len() && before[i] == list@[k];
                            assert(out@[i] == list@[k]);
                        }
                    }
                }
            }
            j = j + 1;
        }
        assert(out@ == spec_tiers_below(cells, v, player, rules, enemy_crown, list@, tier as int + 1));
        tier = tier + 1;
    }
    proof {
        assert forall|k: int| 0 <= k < list.len() implies out@.contains(#[trigger] list@[k]) by {
            assert(tiers@[k] < 3);
        }
        lemma_same_moves_keep_set(out@, list@, cells, v, player, rules);
    }
    out
}

} // verus!
