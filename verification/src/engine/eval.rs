//! The AI's static evaluation: material, mobility and Crown proximity,
//! each a symmetric, per-piece additive term.
use vstd::prelude::*;
use crate::engine::board::CrownfallBoardState;
use crate::engine::captures::spec_move_candidates;
use crate::engine::play::CrownfallGame;
use crate::engine::rules::{spec_count, spec_piece_count};
use crate::engine::tables::{cell_count, dist, spec_dist};
use crate::engine::types::{
    lemma_opposite_involution, spec_board_length, spec_cell_count, CrownfallBoardVariant,
    CrownfallPiece, CrownfallPieceKind, CrownfallPlayerKind, CrownfallRules,
};

verus! {

/// Shapes how the AI weighs a position, independent of how far ahead it
/// looks. Every personality scales the same symmetric terms, so a position
/// is worth exactly as much to one side as it costs the other.
#[derive(Clone, Copy, Debug, PartialEq, Eq, Hash, Structural)]
pub enum CrownfallPersonality {
    /// Values holding onto material over board position.
    Defensive,
    Balanced,
    /// Discounts material a little and leans on mobility and advancement.
    Aggressive,
}

/// Per-term weights of the evaluation.
#[derive(Clone, Copy, Debug)]
pub struct Weights {
    pub crown: i32,
    pub knight: i32,
    pub spy: i32,
    pub archer: i32,
    pub mobility: i32,
    pub crown_proximity: i32,
}

pub open spec fn spec_weights(p: CrownfallPersonality) -> Weights {
    match p {
        CrownfallPersonality::Defensive => Weights { crown: 1000, knight: 35, spy: 25, archer: 25, mobility: 1, crown_proximity: 1 },
        CrownfallPersonality::Balanced => Weights { crown: 1000, knight: 30, spy: 20, archer: 20, mobility: 1, crown_proximity: 2 },
        CrownfallPersonality::Aggressive => Weights { crown: 1000, knight: 25, spy: 15, archer: 15, mobility: 2, crown_proximity: 4 },
    }
}

impl CrownfallPersonality {
    pub fn weights(self) -> (r: Weights)
        ensures
            r == spec_weights(self),
    {
        match self {
            CrownfallPersonality::Defensive => Weights { crown: 1000, knight: 35, spy: 25, archer: 25, mobility: 1, crown_proximity: 1 },
            CrownfallPersonality::Balanced => Weights { crown: 1000, knight: 30, spy: 20, archer: 20, mobility: 1, crown_proximity: 2 },
            CrownfallPersonality::Aggressive => Weights { crown: 1000, knight: 25, spy: 15, archer: 15, mobility: 2, crown_proximity: 4 },
        }
    }
}

/// Weighted material difference, from `player`'s side.
pub open spec fn spec_material(cells: Seq<Option<CrownfallPiece>>, player: CrownfallPlayerKind, w: Weights) -> int {
    let o = player.spec_opposite();
    w.crown * (spec_piece_count(cells, CrownfallPieceKind::Crown, player) - spec_piece_count(cells, CrownfallPieceKind::Crown, o))
        + w.knight * (spec_piece_count(cells, CrownfallPieceKind::Knight, player) - spec_piece_count(cells, CrownfallPieceKind::Knight, o))
        + w.spy * (spec_piece_count(cells, CrownfallPieceKind::Spy, player) - spec_piece_count(cells, CrownfallPieceKind::Spy, o))
        + w.archer * (spec_piece_count(cells, CrownfallPieceKind::Archer, player) - spec_piece_count(cells, CrownfallPieceKind::Archer, o))
}

/// The cell of `player`'s Crown among the first `n` cells (the last one in
/// scan order), if any.
pub open spec fn spec_crown_cell(cells: Seq<Option<CrownfallPiece>>, player: CrownfallPlayerKind, n: int) -> Option<int>
    decreases n,
{
    if n <= 0 {
        None
    } else if cells[n - 1] matches Some(p) && p.spec_kind() == CrownfallPieceKind::Crown && p.spec_player() == player {
        Some(n - 1)
    } else {
        spec_crown_cell(cells, player, n - 1)
    }
}

/// +1 for `player`'s pieces, -1 for the opponent's.
pub open spec fn spec_sign(p: CrownfallPiece, player: CrownfallPlayerKind) -> int {
    if p.spec_player() == player { 1 } else { -1 }
}

/// How many of the first `n` cells of `s` are empty.
pub open spec fn spec_free(cells: Seq<Option<CrownfallPiece>>, s: Seq<int>, n: int) -> int
    decreases n,
{
    if n <= 0 {
        0
    } else {
        spec_free(cells, s, n - 1) + if cells[s[n - 1]].is_none() { 1int } else { 0int }
    }
}

/// Empty destinations of `player`'s pieces minus the opponent's, over the
/// first `n` cells.
pub open spec fn spec_mobility(cells: Seq<Option<CrownfallPiece>>, v: CrownfallBoardVariant, rules: CrownfallRules, player: CrownfallPlayerKind, n: int) -> int
    decreases n,
{
    if n <= 0 {
        0
    } else {
        spec_mobility(cells, v, rules, player, n - 1) + match cells[n - 1] {
            Some(p) => {
                let cands = spec_move_candidates(cells, v, n - 1, rules);
                spec_sign(p, player) * spec_free(cells, cands, cands.len() as int)
            },
            None => 0int,
        }
    }
}

/// The largest distance between two cells of the board.
pub open spec fn spec_max_distance(v: CrownfallBoardVariant) -> int {
    2 * (spec_board_length(v) - 1)
}

/// Crown proximity over the first `n` cells: each non-Crown piece scores
/// the largest distance minus its distance to the Crown it threatens (the
/// enemy Crown for `player`'s pieces, `player`'s own for the opponent's);
/// a missing Crown scores nothing.
pub open spec fn spec_proximity(cells: Seq<Option<CrownfallPiece>>, v: CrownfallBoardVariant, player: CrownfallPlayerKind, own: Option<int>, enemy: Option<int>, n: int) -> int
    decreases n,
{
    if n <= 0 {
        0
    } else {
        spec_proximity(cells, v, player, own, enemy, n - 1) + match cells[n - 1] {
            Some(p) => if p.spec_kind() == CrownfallPieceKind::Crown {
                0int
            } else {
                let target = if p.spec_player() == player { enemy } else { own };
                match target {
                    Some(c) => spec_sign(p, player) * (spec_max_distance(v) - spec_dist(v, c, n - 1)),
                    None => 0int,
                }
            },
            None => 0int,
        }
    }
}

/// The evaluation of `cells` from `player`'s side.
pub open spec fn spec_evaluate(cells: Seq<Option<CrownfallPiece>>, v: CrownfallBoardVariant, rules: CrownfallRules, player: CrownfallPlayerKind, personality: CrownfallPersonality) -> int {
    let w = spec_weights(personality);
    let n = cells.len() as int;
    let own = spec_crown_cell(cells, player, n);
    let enemy = spec_crown_cell(cells, player.spec_opposite(), n);
    spec_material(cells, player, w) + w.mobility * spec_mobility(cells, v, rules, player, n)
        + w.crown_proximity * spec_proximity(cells, v, player, own, enemy, n)
}

/// Bound on the evaluation of any board of at most 81 cells, and on every
/// score the search passes around (the victory score included).
pub const EVAL_BOUND: i32 = 100000;

/// The cell of `player`'s Crown (the last one in scan order), if any.
pub fn crown_cell(board: &CrownfallBoardState, player: CrownfallPlayerKind) -> (r: Option<usize>)
    ensures
        r == match spec_crown_cell(board@, player, board@.len() as int) {
            Some(c) => Some(c as usize),
            None => None::<usize>,
        },
        r matches Some(c) ==> c < board@.len(),
        spec_crown_cell(board@, player, board@.len() as int) matches Some(c) ==> 0 <= c < board@.len(),
{
    let cells = board.cells();
    let mut found: Option<usize> = None;
    let mut i: usize = 0;
    while i < cells.len()
        invariant
            cells@ == board@,
            i <= cells@.len(),
            found == match spec_crown_cell(board@, player, i as int) {
                Some(c) => Some(c as usize),
                None => None::<usize>,
            },
            found matches Some(c) ==> c < i,
            spec_crown_cell(board@, player, i as int) matches Some(c) ==> 0 <= c < i,
        decreases cells@.len() - i,
    {
        match cells[i] {
            Some(p) => {
                if p.kind() == CrownfallPieceKind::Crown && p.player() == player {
                    found = Some(i);
                }
            },
            None => {},
        }
        i = i + 1;
    }
    found
}

/// Empty cells among a piece's movement candidates.
fn free_count(board: &CrownfallBoardState, index: usize, rules: CrownfallRules) -> (r: i32)
    requires
        index < spec_cell_count(board.spec_variant()),
    ensures
        ({
            let cands = spec_move_candidates(board@, board.spec_variant(), index as int, rules);
            r == spec_free(board@, cands, cands.len() as int)
        }),
        0 <= r <= 4,
{
    proof {
        board.lemma_len();
    }
    let cands = board.move_candidates(index, rules);
    let mut k: usize = 0;
    let mut free: i32 = 0;
    while k < cands.len
        invariant
            cands.wf(),
            cands@ == spec_move_candidates(board@, board.spec_variant(), index as int, rules),
            crate::engine::tables::spec_on_board(board.spec_variant(), cands@),
            board@.len() == spec_cell_count(board.spec_variant()),
            k <= cands.len,
            free == spec_free(board@, cands@, k as int),
            0 <= free <= k,
        decreases cands.len - k,
    {
        if board.get(cands.get(k)).is_none() {
            free = free + 1;
        }
        k = k + 1;
    }
    free
}

proof fn lemma_free_bounds(cells: Seq<Option<CrownfallPiece>>, s: Seq<int>, n: int)
    requires
        0 <= n,
    ensures
        0 <= spec_free(cells, s, n) <= n,
    decreases n,
{
    if n > 0 {
        lemma_free_bounds(cells, s, n - 1);
    }
}

/// Static evaluation of `game` from `player`'s side: material (piece
/// values), mobility (empty-destination count difference) and Crown
/// proximity, each weighted by `personality`. With at most one Crown per
/// side it stays strictly inside the victory score, so a win or a loss
/// outweighs any evaluation.
pub fn evaluate(game: &CrownfallGame, player: CrownfallPlayerKind, personality: CrownfallPersonality) -> (r: i32)
    ensures
        r == spec_evaluate(game.board@, game.board.spec_variant(), game.rules, player, personality),
        -EVAL_BOUND <= r <= EVAL_BOUND,
        spec_piece_count(game.board@, CrownfallPieceKind::Crown, player) <= 1
            && spec_piece_count(game.board@, CrownfallPieceKind::Crown, player.spec_opposite()) <= 1
            ==> -crate::engine::ai::VICTORY_SCORE < r < crate::engine::ai::VICTORY_SCORE,
{
    let w = personality.weights();
    let board = &game.board;
    proof {
        board.lemma_len();
    }
    let v = board.variant();
    let n = cell_count(v);
    let opp = player.opposite();
    let ghost cells = board@;
    let cc = game.piece_count(CrownfallPieceKind::Crown, player) as i32 - game.piece_count(CrownfallPieceKind::Crown, opp) as i32;
    let kc = game.piece_count(CrownfallPieceKind::Knight, player) as i32 - game.piece_count(CrownfallPieceKind::Knight, opp) as i32;
    let sc = game.piece_count(CrownfallPieceKind::Spy, player) as i32 - game.piece_count(CrownfallPieceKind::Spy, opp) as i32;
    let ac = game.piece_count(CrownfallPieceKind::Archer, player) as i32 - game.piece_count(CrownfallPieceKind::Archer, opp) as i32;
    assert(-81 <= cc <= 81 && -81 <= kc <= 81 && -81 <= sc <= 81 && -81 <= ac <= 81);
    assert(-81000 <= w.crown * cc <= 81000) by (nonlinear_arith)
        requires
            -81 <= cc <= 81,
            0 <= w.crown <= 1000,
    ;
    assert(-2835 <= w.knight * kc <= 2835) by (nonlinear_arith)
        requires
            -81 <= kc <= 81,
            0 <= w.knight <= 35,
    ;
    assert(-2025 <= w.spy * sc <= 2025) by (nonlinear_arith)
        requires
            -81 <= sc <= 81,
            0 <= w.spy <= 25,
    ;
    assert(-2025 <= w.archer * ac <= 2025) by (nonlinear_arith)
        requires
            -81 <= ac <= 81,
            0 <= w.archer <= 25,
    ;
    assert(-1 <= cc <= 1 ==> -1000 <= w.crown * cc <= 1000) by (nonlinear_arith)
        requires
            0 <= w.crown <= 1000,
    ;
    let material = w.crown * cc + w.knight * kc + w.spy * sc + w.archer * ac;

    let own_crown = crown_cell(board, player);
    let enemy_crown = crown_cell(board, opp);
    let ghost own = spec_crown_cell(cells, player, n as int);
    let ghost enemy = spec_crown_cell(cells, opp, n as int);
    let max_distance = 2 * (board.board_length() as i32 - 1);

    let mut mobility: i32 = 0;
    let mut proximity: i32 = 0;
    let mut index: usize = 0;
    while index < n
        invariant
            cells == board@,
            v == board.spec_variant(),
            n == spec_cell_count(v),
            cells.len() == n,
            n <= 81,
            own_crown == match own { Some(c) => Some(c as usize), None => None::<usize> },
            enemy_crown == match enemy { Some(c) => Some(c as usize), None => None::<usize> },
            own_crown matches Some(c) ==> c < n,
            enemy_crown matches Some(c) ==> c < n,
            own matches Some(c) ==> 0 <= c < n,
            enemy matches Some(c) ==> 0 <= c < n,
            max_distance == spec_max_distance(v),
            0 <= max_distance <= 16,
            index <= n,
            mobility == spec_mobility(cells, v, game.rules, player, index as int),
            proximity == spec_proximity(cells, v, player, own, enemy, index as int),
            -4 * index <= mobility <= 4 * index,
            -16 * index <= proximity <= 16 * index,
        decreases n - index,
    {
        match board.get(index) {
            Some(piece) => {
                let mine = piece.player() == player;
                let free = free_count(board, index, game.rules);
                proof {
                    let cands = spec_move_candidates(cells, v, index as int, game.rules);
                    assert(spec_mobility(cells, v, game.rules, player, index as int + 1) == spec_mobility(cells, v, game.rules, player, index as int)
                        + spec_sign(piece, player) * spec_free(cells, cands, cands.len() as int));
                }
                if mine {
                    mobility = mobility + free;
                } else {
                    mobility = mobility - free;
                }
                if piece.kind() != CrownfallPieceKind::Crown {
                    let target = if mine { enemy_crown } else { own_crown };
                    match target {
                        Some(c) => {
                            let d = dist(v, c, index) as i32;
                            proof {
                                let tc = if piece.spec_player() == player { enemy } else { own };
                                assert(tc matches Some(cc) && cc == c);
                                assert(spec_proximity(cells, v, player, own, enemy, index as int + 1) == spec_proximity(cells, v, player, own, enemy, index as int)
                                    + spec_sign(piece, player) * (spec_max_distance(v) - spec_dist(v, c as int, index as int)));
                            }
                            if mine {
                                proximity = proximity + (max_distance - d);
                            } else {
                                proximity = proximity - (max_distance - d);
                            }
                        },
                        None => {},
                    }
                }
            },
            None => {},
        }
        index = index + 1;
    }
    let mw = w.mobility;
    let pw = w.crown_proximity;
    assert(-648 <= mw * mobility <= 648) by (nonlinear_arith)
        requires
            -324 <= mobility <= 324,
            0 <= mw <= 2,
    ;
    assert(-5184 <= pw * proximity <= 5184) by (nonlinear_arith)
        requires
            -1296 <= proximity <= 1296,
            0 <= pw <= 4,
    ;
    material + mw * mobility + pw * proximity
}

proof fn lemma_mobility_antisymmetric(cells: Seq<Option<CrownfallPiece>>, v: CrownfallBoardVariant, rules: CrownfallRules, player: CrownfallPlayerKind, n: int)
    ensures
        spec_mobility(cells, v, rules, player, n) == -spec_mobility(cells, v, rules, player.spec_opposite(), n),
    decreases n,
{
    if n > 0 {
        lemma_mobility_antisymmetric(cells, v, rules, player, n - 1);
        if let Some(p) = cells[n - 1] {
            let cands = spec_move_candidates(cells, v, n - 1, rules);
            let f = spec_free(cells, cands, cands.len() as int);
            assert(spec_sign(p, player) == -spec_sign(p, player.spec_opposite()));
            assert(spec_sign(p, player) * f == -(spec_sign(p, player.spec_opposite()) * f)) by (nonlinear_arith)
                requires
                    spec_sign(p, player) == -spec_sign(p, player.spec_opposite()),
            ;
        }
    }
}

proof fn lemma_proximity_antisymmetric(cells: Seq<Option<CrownfallPiece>>, v: CrownfallBoardVariant, player: CrownfallPlayerKind, own: Option<int>, enemy: Option<int>, n: int)
    ensures
        spec_proximity(cells, v, player, own, enemy, n) == -spec_proximity(cells, v, player.spec_opposite(), enemy, own, n),
    decreases n,
{
    if n > 0 {
        lemma_proximity_antisymmetric(cells, v, player, own, enemy, n - 1);
        if let Some(p) = cells[n - 1] {
            if p.spec_kind() != CrownfallPieceKind::Crown {
                let target = if p.spec_player() == player { enemy } else { own };
                if let Some(c) = target {
                    let d = spec_max_distance(v) - spec_dist(v, c, n - 1);
                    assert(spec_sign(p, player) * d == -(spec_sign(p, player.spec_opposite()) * d)) by (nonlinear_arith)
                        requires
                            spec_sign(p, player) == -spec_sign(p, player.spec_opposite()),
                    ;
                }
            }
        }
    }
}

proof fn lemma_neg_mul(w: int, a: int, b: int)
    ensures
        w * (a - b) == -(w * (b - a)),
{
    assert(w * (a - b) == -(w * (b - a))) by (nonlinear_arith);
}

/// The material weight of a piece kind.
pub open spec fn spec_kind_weight(w: Weights, kind: CrownfallPieceKind) -> int {
    match kind {
        CrownfallPieceKind::Crown => w.crown as int,
        CrownfallPieceKind::Knight => w.knight as int,
        CrownfallPieceKind::Spy => w.spy as int,
        CrownfallPieceKind::Archer => w.archer as int,
    }
}

proof fn lemma_count_clear(cells: Seq<Option<CrownfallPiece>>, kind: CrownfallPieceKind, player: CrownfallPlayerKind, c: int, n: int)
    requires
        0 <= c < cells.len(),
        0 <= n <= cells.len(),
    ensures
        spec_count(cells.update(c, None), kind, player, n) == spec_count(cells, kind, player, n) - (
            if c < n && cells[c] is Some && cells[c].unwrap().spec_kind() == kind && cells[c].unwrap().spec_player() == player { 1int } else { 0int }),
    decreases n,
{
    if n > 0 {
        lemma_count_clear(cells, kind, player, c, n - 1);
    }
}

/// Law: for every piece kind, material counts `player`'s pieces for and the
/// opponent's against: taking an enemy piece off the board raises
/// `player`'s material by its kind's (positive) weight, losing one of
/// `player`'s own lowers it by the same weight. When the removal leaves the
/// mobility and Crown-proximity terms as they were, the evaluation moves by
/// exactly that amount.
pub proof fn lemma_removal_shifts_material(cells: Seq<Option<CrownfallPiece>>, v: CrownfallBoardVariant, rules: CrownfallRules, player: CrownfallPlayerKind, personality: CrownfallPersonality, c: int)
    requires
        0 <= c < cells.len(),
        cells[c] is Some,
    ensures
        ({
            let w = spec_weights(personality);
            let p = cells[c].unwrap();
            let k = spec_kind_weight(w, p.spec_kind());
            let after = cells.update(c, None);
            &&& k > 0
            &&& p.spec_player() != player ==> spec_material(after, player, w) == spec_material(cells, player, w) + k
            &&& p.spec_player() == player ==> spec_material(after, player, w) == spec_material(cells, player, w) - k
            &&& ({
                let n = cells.len() as int;
                let o = player.spec_opposite();
                &&& spec_mobility(after, v, rules, player, n) == spec_mobility(cells, v, rules, player, n)
                &&& spec_proximity(after, v, player, spec_crown_cell(after, player, n), spec_crown_cell(after, o, n), n)
                    == spec_proximity(cells, v, player, spec_crown_cell(cells, player, n), spec_crown_cell(cells, o, n), n)
            }) ==> spec_evaluate(after, v, rules, player, personality) - spec_evaluate(cells, v, rules, player, personality)
                == spec_material(after, player, w) - spec_material(cells, player, w)
        }),
{
    let n = cells.len() as int;
    let o = player.spec_opposite();
    lemma_count_clear(cells, CrownfallPieceKind::Crown, player, c, n);
    lemma_count_clear(cells, CrownfallPieceKind::Crown, o, c, n);
    lemma_count_clear(cells, CrownfallPieceKind::Knight, player, c, n);
    lemma_count_clear(cells, CrownfallPieceKind::Knight, o, c, n);
    lemma_count_clear(cells, CrownfallPieceKind::Spy, player, c, n);
    lemma_count_clear(cells, CrownfallPieceKind::Spy, o, c, n);
    lemma_count_clear(cells, CrownfallPieceKind::Archer, player, c, n);
    lemma_count_clear(cells, CrownfallPieceKind::Archer, o, c, n);
    let after = cells.update(c, None);
    assert(after.len() == n);
    let p = cells[c].unwrap();
    assert(p.spec_player() == player || p.spec_player() == o);
    let w = spec_weights(personality);
    let cr = CrownfallPieceKind::Crown;
    let kn = CrownfallPieceKind::Knight;
    let sp = CrownfallPieceKind::Spy;
    let ar = CrownfallPieceKind::Archer;
    let xc = spec_piece_count(after, cr, player) - spec_piece_count(after, cr, o);
    let yc = spec_piece_count(cells, cr, player) - spec_piece_count(cells, cr, o);
    let xk = spec_piece_count(after, kn, player) - spec_piece_count(after, kn, o);
    let yk = spec_piece_count(cells, kn, player) - spec_piece_count(cells, kn, o);
    let xs = spec_piece_count(after, sp, player) - spec_piece_count(after, sp, o);
    let ys = spec_piece_count(cells, sp, player) - spec_piece_count(cells, sp, o);
    let xa = spec_piece_count(after, ar, player) - spec_piece_count(after, ar, o);
    let ya = spec_piece_count(cells, ar, player) - spec_piece_count(cells, ar, o);
    lemma_mul_diff(w.crown as int, xc, yc);
    lemma_mul_diff(w.knight as int, xk, yk);
    lemma_mul_diff(w.spy as int, xs, ys);
    lemma_mul_diff(w.archer as int, xa, ya);
    let d = if p.spec_player() == player { -1int } else { 1int };
    assert(xc - yc == if p.spec_kind() == cr { d } else { 0 });
    assert(xk - yk == if p.spec_kind() == kn { d } else { 0 });
    assert(xs - ys == if p.spec_kind() == sp { d } else { 0 });
    assert(xa - ya == if p.spec_kind() == ar { d } else { 0 });
    assert(spec_material(after, player, w) - spec_material(cells, player, w)
        == w.crown * (xc - yc) + w.knight * (xk - yk) + w.spy * (xs - ys) + w.archer * (xa - ya));
    let k = spec_kind_weight(w, p.spec_kind());
    lemma_term(w.crown as int, xc - yc, d, p.spec_kind() == cr);
    lemma_term(w.knight as int, xk - yk, d, p.spec_kind() == kn);
    lemma_term(w.spy as int, xs - ys, d, p.spec_kind() == sp);
    lemma_term(w.archer as int, xa - ya, d, p.spec_kind() == ar);
}

proof fn lemma_term(w: int, t: int, d: int, hit: bool)
    requires
        t == if hit { d } else { 0 },
    ensures
        w * t == if hit { d * w } else { 0 },
{
    if hit {
        assert(w * d == d * w) by (nonlinear_arith);
    } else {
        assert(w * 0 == 0) by (nonlinear_arith);
    }
}

proof fn lemma_mul_diff(w: int, x: int, y: int)
    ensures
        w * x - w * y == w * (x - y),
{
    assert(w * x - w * y == w * (x - y)) by (nonlinear_arith);
}

/// Law: the evaluation is zero-sum — a position is worth to one side
/// exactly what it costs the other.
pub proof fn lemma_evaluate_antisymmetric(cells: Seq<Option<CrownfallPiece>>, v: CrownfallBoardVariant, rules: CrownfallRules, player: CrownfallPlayerKind, personality: CrownfallPersonality)
    ensures
        spec_evaluate(cells, v, rules, player, personality) == -spec_evaluate(cells, v, rules, player.spec_opposite(), personality),
{
    let n = cells.len() as int;
    let w = spec_weights(personality);
    let o = player.spec_opposite();
    lemma_opposite_involution(player);
    lemma_mobility_antisymmetric(cells, v, rules, player, n);
    let own = spec_crown_cell(cells, player, n);
    let enemy = spec_crown_cell(cells, o, n);
    lemma_proximity_antisymmetric(cells, v, player, own, enemy, n);
    let m = spec_mobility(cells, v, rules, player, n);
    let q = spec_proximity(cells, v, player, own, enemy, n);
    assert(o.spec_opposite() == player);
    lemma_neg_mul(w.crown as int, spec_piece_count(cells, CrownfallPieceKind::Crown, player), spec_piece_count(cells, CrownfallPieceKind::Crown, o));
    lemma_neg_mul(w.knight as int, spec_piece_count(cells, CrownfallPieceKind::Knight, player), spec_piece_count(cells, CrownfallPieceKind::Knight, o));
    lemma_neg_mul(w.spy as int, spec_piece_count(cells, CrownfallPieceKind::Spy, player), spec_piece_count(cells, CrownfallPieceKind::Spy, o));
    lemma_neg_mul(w.archer as int, spec_piece_count(cells, CrownfallPieceKind::Archer, player), spec_piece_count(cells, CrownfallPieceKind::Archer, o));
    assert(w.mobility * m == -(w.mobility * (-m))) by (nonlinear_arith);
    assert(w.crown_proximity * q == -(w.crown_proximity * (-q))) by (nonlinear_arith);
}

} // verus!
