//! A negamax game-playing AI for the 7x7 game.
use vstd::prelude::*;
use crate::classic::game::spec_result_is;
use crate::classic::rules::{
    spec_continue, spec_destinations, spec_handle_action, spec_handle_move, spec_owned,
    Outcome, Snap, NO_PROGRESS_LIMIT,
};
use crate::classic::types::{Cell, Game, GameState, Piece, PieceKind, PlayerAction, PlayerKind};

verus! {

pub const CROWN_VALUE: i32 = 1000;
pub const KNIGHT_VALUE: i32 = 30;
pub const SPY_VALUE: i32 = 20;
pub const MOBILITY_WEIGHT: i32 = 1;
pub const VICTORY_SCORE: i32 = 1000000;

/// Recommended search depth: a reasonably strong opponent that still
/// responds quickly.
pub const DEFAULT_DEPTH: u8 = 3;

/// Every search score lies within this bound.
pub const SCORE_BOUND: i32 = 1000000;

/// `a` moves `player`'s piece at `from` to one of its legal destinations.
pub open spec fn spec_legal_move(cells: Seq<Option<Piece>>, player: PlayerKind, a: PlayerAction) -> bool {
    a matches PlayerAction::Move { player: p, from, to } && {
        &&& p == player
        &&& from.index < 49
        &&& spec_owned(cells[from.index as int], player)
        &&& spec_destinations(cells, from.index as int).contains(to)
    }
}

/// Number of legal moves of `player` among the pieces on the first `n`
/// cells.
pub open spec fn spec_move_count(cells: Seq<Option<Piece>>, player: PlayerKind, n: int) -> int
    decreases n,
{
    if n <= 0 {
        0
    } else {
        spec_move_count(cells, player, n - 1) + if spec_owned(cells[n - 1], player) {
            spec_destinations(cells, n - 1).len() as int
        } else {
            0int
        }
    }
}

pub open spec fn spec_value(p: Piece) -> int {
    match p.kind {
        PieceKind::Crown => CROWN_VALUE as int,
        PieceKind::Knight => KNIGHT_VALUE as int,
        PieceKind::Spy => SPY_VALUE as int,
    }
}

/// Piece values, `player`'s counted positive and the opponent's negative,
/// over the first `n` cells.
pub open spec fn spec_material(cells: Seq<Option<Piece>>, player: PlayerKind, n: int) -> int
    decreases n,
{
    if n <= 0 {
        0
    } else {
        spec_material(cells, player, n - 1) + match cells[n - 1] {
            Some(p) => if p.player == player { spec_value(p) } else { -spec_value(p) },
            None => 0int,
        }
    }
}

/// The static evaluation from `player`'s side: material plus the
/// difference in legal-move counts.
pub open spec fn spec_evaluate(cells: Seq<Option<Piece>>, player: PlayerKind) -> int {
    spec_material(cells, player, 49) + MOBILITY_WEIGHT * (spec_move_count(cells, player, 49) - spec_move_count(cells, player.spec_opposite(), 49))
}

/// Law: a move is accepted exactly when it is the mover's turn and it is
/// one of their legal moves.
pub proof fn lemma_move_accepted(g: Snap, player: PlayerKind, from: Cell, to: Cell)
    requires
        from.index < 49,
    ensures
        spec_handle_action(g, PlayerAction::Move { player, from, to }) is Ok <==> {
            &&& g.state is Playing
            &&& g.state->Playing_0.spec_player() == player
            &&& spec_legal_move(g.cells, player, PlayerAction::Move { player, from, to })
        },
{
}

/// The action is accepted.
#[verifier::opaque]
pub open spec fn spec_accepts(g: Snap, a: PlayerAction) -> bool {
    spec_handle_action(g, a) is Ok
}

proof fn lemma_accepts_iff(g: Snap, player: PlayerKind, a: PlayerAction)
    requires
        spec_legal_move(g.cells, player, a),
    ensures
        spec_accepts(g, a) <==> (g.state is Playing && g.state->Playing_0.spec_player() == player),
{
    reveal(spec_accepts);
    lemma_move_accepted(g, player, a->Move_from, a->Move_to);
}

/// Law: after a successful action by `player`, if the game goes on it is
/// the opponent's turn and the no-progress counter is below its limit.
pub proof fn lemma_action_hands_over(g: Snap, action: PlayerAction)
    ensures
        spec_handle_action(g, action) matches Ok(o) ==> (o.state is Playing ==> {
            &&& o.state->Playing_0.spec_player() == action.spec_player().spec_opposite()
            &&& o.msc < NO_PROGRESS_LIMIT
        }),
{
    match action {
        PlayerAction::Move { player, from, to } => {
            if spec_handle_move(g, player, from, to) is Ok {
                let f = from.index as int;
                let t = to.index as int;
                let piece = g.cells[f].unwrap();
                let b = crate::classic::rules::spec_moved(g.cells, f, t, piece);
                let opp = player.spec_opposite();
                let caps = crate::classic::rules::spec_piece_captures(b, t, player);
                let end1 = b.update(t, None);
                let end2 = crate::classic::rules::spec_apply_captures(b, caps, caps.len() as int, t, piece.kind);
                let _ = spec_continue(end1, opp, g.history, g.msc, true);
                let _ = spec_continue(end2, opp, g.history, g.msc, true);
                let _ = spec_continue(b, opp, g.history, g.msc, false);
            }
        },
        PlayerAction::KnightRemoval { player, at } => {},
        PlayerAction::Surrender { player } => {},
    }
}

/// The moves of the piece at `from` to each of `dests`, in order.
pub open spec fn spec_moves_to(player: PlayerKind, from: int, dests: Seq<Cell>) -> Seq<PlayerAction> {
    dests.map_values(|to: Cell| PlayerAction::Move { player, from: Cell { index: from as usize }, to })
}

/// The legal moves of `player`'s pieces on the first `n` cells, piece by
/// piece in cell order, each piece's destinations in their own order.
pub open spec fn spec_legal_list(cells: Seq<Option<Piece>>, player: PlayerKind, n: int) -> Seq<PlayerAction>
    decreases n,
{
    if n <= 0 {
        Seq::empty()
    } else if spec_owned(cells[n - 1], player) {
        spec_legal_list(cells, player, n - 1) + spec_moves_to(player, n - 1, spec_destinations(cells, n - 1))
    } else {
        spec_legal_list(cells, player, n - 1)
    }
}

/// Every legal move of `player`, piece by piece in cell order.
pub fn legal_moves(game: &Game, player: PlayerKind) -> (r: Vec<PlayerAction>)
    ensures
        r@ == spec_legal_list(game.board@, player, 49),
        forall|k: int| 0 <= k < r@.len() ==> spec_legal_move(game.board@, player, #[trigger] r@[k]),
        forall|a: PlayerAction| #[trigger] spec_legal_move(game.board@, player, a) ==> r@.contains(a),
        r@.len() == spec_move_count(game.board@, player, 49),
{
    let ghost cells = game.board@;
    let mut moves: Vec<PlayerAction> = Vec::new();
    let mut index: usize = 0;
    while index < 49
        invariant
            cells == game.board@,
            cells.len() == 49,
            index <= 49,
            moves@.len() == spec_move_count(cells, player, index as int),
            moves@ == spec_legal_list(cells, player, index as int),
            forall|k: int| 0 <= k < moves@.len() ==> spec_legal_move(cells, player, #[trigger] moves@[k]),
            forall|k: int| 0 <= k < moves@.len() ==> (#[trigger] moves@[k])->Move_from.index < index,
            forall|a: PlayerAction| #[trigger] spec_legal_move(cells, player, a) && a->Move_from.index < index ==> moves@.contains(a),
        decreases 49 - index,
    {
        let owned = match game.board.cells[index] {
            Some(piece) => piece.player == player,
            None => false,
        };
        if owned {
            let from = Cell::new_index(index);
            let dests = game.board.get_valid_destinations_for(from);
            let ghost dv = dests@;
            let ghost base = moves@;
            let mut k: usize = 0;
            while k < dests.len()
                invariant
                    cells == game.board@,
                    cells.len() == 49,
                    index < 49,
                    from.index == index,
                    spec_owned(cells[index as int], player),
                    dv == dests@,
                    dv == spec_destinations(cells, index as int),
                    k <= dv.len(),
                    moves@.len() == base.len() + k,
                    moves@ == base + spec_moves_to(player, index as int, dv.subrange(0, k as int)),
                    base == spec_legal_list(cells, player, index as int),
                    base.len() == spec_move_count(cells, player, index as int),
                    forall|j: int| 0 <= j < base.len() ==> moves@[j] == base[j],
                    forall|j: int| 0 <= j < moves@.len() ==> spec_legal_move(cells, player, #[trigger] moves@[j]),
                    forall|j: int| 0 <= j < moves@.len() ==> (#[trigger] moves@[j])->Move_from.index <= index,
                    forall|a: PlayerAction| #[trigger] spec_legal_move(cells, player, a) && a->Move_from.index < index ==> base.contains(a),
                    forall|kk: int| 0 <= kk < k ==> moves@.contains(PlayerAction::Move { player, from, to: #[trigger] dv[kk] }),
                decreases dv.len() - k,
            {
                let to = dests[k];
                let ghost before = moves@;
                moves.push(PlayerAction::Move { player, from, to });
                proof {
                    assert(dv.contains(to));
                    assert(moves@[moves@.len() - 1] == PlayerAction::Move { player, from, to });
                    assert forall|kk: int| 0 <= kk < k + 1 implies moves@.contains(PlayerAction::Move { player, from, to: #[trigger] dv[kk] }) by {
                        if kk < k {
                            let j = choose|j: int| 0 <= j < before.len() && before[j] == PlayerAction::Move { player, from, to: dv[kk] };
                            assert(moves@[j] == before[j]);
                        } else {
                            assert(moves@[moves@.len() - 1] == PlayerAction::Move { player, from, to: dv[kk] });
                        }
                    }
                }
                k = k + 1;
                assert(moves@ =~= base + spec_moves_to(player, index as int, dv.subrange(0, k as int)));
            }
            proof {
                assert(dv.subrange(0, dv.len() as int) =~= dv);
                assert(moves@ == spec_legal_list(cells, player, index + 1));
                assert forall|a: PlayerAction| #[trigger] spec_legal_move(cells, player, a) && a->Move_from.index < index + 1 implies moves@.contains(a) by {
                    if a->Move_from.index < index {
                        let j = choose|j: int| 0 <= j < base.len() && base[j] == a;
                        assert(moves@[j] == a);
                    } else {
                        let t = a->Move_to;
                        assert(dv.contains(t));
                        let kk = choose|kk: int| 0 <= kk < dv.len() && dv[kk] == t;
                        assert(a == PlayerAction::Move { player, from, to: dv[kk] });
                    }
                }
            }
        }
        index = index + 1;
    }
    moves
}

/// The working copy of a game a candidate move is applied to.
fn copy_game(game: &Game) -> (r: Game)
    ensures
        r.board == game.board,
        r.state == game.state,
        r.history@ == game.history@,
        r.moves_since_capture == game.moves_since_capture,
{
    let mut history: Vec<u64> = Vec::new();
    let mut i: usize = 0;
    while i < game.history.len()
        invariant
            i <= game.history@.len(),
            history@ == game.history@.subrange(0, i as int),
        decreases game.history@.len() - i,
    {
        history.push(game.history[i]);
        i = i + 1;
        assert(history@ =~= game.history@.subrange(0, i as int));
    }
    assert(history@ =~= game.history@);
    Game { board: game.board, state: game.state, history, moves_since_capture: game.moves_since_capture }
}

/// The static evaluation of `game` from `player`'s side.
fn evaluate(game: &Game, player: PlayerKind) -> (r: i32)
    ensures
        r == spec_evaluate(game.board@, player),
        -100000 <= r <= 100000,
{
    let mut score: i32 = 0;
    let mut i: usize = 0;
    while i < 49
        invariant
            game.board@.len() == 49,
            i <= 49,
            score == spec_material(game.board@, player, i as int),
            -1000 * i <= score <= 1000 * i,
        decreases 49 - i,
    {
        match game.board.cells[i] {
            Some(piece) => {
                let value = match piece.kind {
                    PieceKind::Crown => CROWN_VALUE,
                    PieceKind::Knight => KNIGHT_VALUE,
                    PieceKind::Spy => SPY_VALUE,
                };
                if piece.player == player {
                    score = score + value;
                } else {
                    score = score - value;
                }
            },
            None => {},
        }
        i = i + 1;
    }
    let mine = legal_moves(game, player);
    let theirs = legal_moves(game, player.opposite());
    proof {
        lemma_move_count_bound(game.board@, player, 49);
        lemma_move_count_bound(game.board@, player.spec_opposite(), 49);
    }
    let mobility = mine.len() as i32 - theirs.len() as i32;
    score + MOBILITY_WEIGHT * mobility
}

proof fn lemma_move_count_bound(cells: Seq<Option<Piece>>, player: PlayerKind, n: int)
    requires
        0 <= n <= cells.len(),
    ensures
        0 <= spec_move_count(cells, player, n) <= 4 * n,
    decreases n,
{
    if n > 0 {
        lemma_move_count_bound(cells, player, n - 1);
        lemma_destinations_bound(cells, n - 1);
    }
}

proof fn lemma_destinations_bound(cells: Seq<Option<Piece>>, i: int)
    ensures
        spec_destinations(cells, i).len() <= 4,
{
    let c = crate::classic::rules::spec_candidates(cells, i);
    lemma_keep_empty_len(cells, c, c.len() as int);
    assert(c.len() <= 4);
}

proof fn lemma_keep_empty_len(cells: Seq<Option<Piece>>, s: Seq<int>, n: int)
    requires
        0 <= n,
    ensures
        crate::classic::rules::spec_keep_empty(cells, s, n).len() <= n,
    decreases n,
{
    if n > 0 {
        lemma_keep_empty_len(cells, s, n - 1);
    }
}

/// The position an accepted action leads to.
pub open spec fn spec_after(g: Snap, a: PlayerAction) -> Snap {
    let o = spec_handle_action(g, a).unwrap();
    Snap { cells: o.cells, state: o.state, history: o.history, msc: o.msc }
}

/// The depth-limited negamax value of `g` for `player`, the side to move:
/// the victory score (positive for `player`) or 0 in a finished game; the
/// static evaluation at depth 0 or without a legal move; otherwise the best
/// of `player`'s legal moves, each worth the negated value of the position
/// it leads to, searched one ply less deep.
pub open spec fn spec_negamax(g: Snap, player: PlayerKind, depth: nat) -> int
    decreases depth, spec_legal_list(g.cells, player, 49).len() + 1,
{
    match g.state {
        GameState::Victory(w) => if w == player { VICTORY_SCORE as int } else { -VICTORY_SCORE },
        GameState::Draw(_) => 0,
        GameState::Playing(_) => {
            let moves = spec_legal_list(g.cells, player, 49);
            if depth == 0 || moves.len() == 0 {
                spec_evaluate(g.cells, player)
            } else {
                spec_best_of(g, player, depth, moves, moves.len() as int)
            }
        },
    }
}

/// The best over the first `n` of `moves` (at least one) of the negated
/// value of the position each leads to, searched one ply less deep.
pub open spec fn spec_best_of(g: Snap, player: PlayerKind, depth: nat, moves: Seq<PlayerAction>, n: int) -> int
    decreases depth, n,
{
    if depth == 0 || n <= 0 {
        0
    } else {
        let v = -spec_negamax(spec_after(g, moves[n - 1]), player.spec_opposite(), (depth - 1) as nat);
        if n == 1 {
            v
        } else {
            let prev = spec_best_of(g, player, depth, moves, n - 1);
            if v > prev { v } else { prev }
        }
    }
}

proof fn lemma_best_of_grows(g: Snap, player: PlayerKind, depth: nat, moves: Seq<PlayerAction>, m: int, n: int)
    requires
        depth > 0,
        1 <= m <= n,
    ensures
        spec_best_of(g, player, depth, moves, m) <= spec_best_of(g, player, depth, moves, n),
    decreases n - m,
{
    if m < n {
        lemma_best_of_grows(g, player, depth, moves, m, n - 1);
    }
}

/// `player` is to move whenever the game is in play, and the no-progress
/// counter can count one more turn.
pub open spec fn spec_searchable(game: &Game, player: PlayerKind) -> bool {
    game.state is Playing ==> {
        &&& game.state->Playing_0.spec_player() == player
        &&& game.moves_since_capture < u16::MAX
    }
}

/// The window property of an alpha-beta search: a result inside the
/// window `(alpha, beta)` is the exact value `v`, one at or below `alpha`
/// bounds `v` from above, and one at or above `beta` bounds it from below.
pub open spec fn spec_window(r: int, v: int, alpha: int, beta: int) -> bool {
    &&& (alpha < r < beta ==> r == v)
    &&& (r <= alpha ==> v <= r)
    &&& (r >= beta ==> v >= r)
}

/// Negamax with alpha-beta pruning over `player`'s legal moves in list
/// order, `player` being the side to move.
fn negamax(game: &Game, player: PlayerKind, depth: u8, alpha: i32, beta: i32) -> (r: i32)
    requires
        spec_searchable(game, player),
        i32::MIN + 1 <= alpha < beta,
    ensures
        -SCORE_BOUND <= r <= SCORE_BOUND,
        spec_window(r as int, spec_negamax(game.snap(), player, depth as nat), alpha as int, beta as int),
        game.state matches GameState::Victory(w) ==> r == (if w == player { VICTORY_SCORE as int } else { -VICTORY_SCORE }),
        game.state is Draw ==> r == 0,
        game.state is Playing && depth == 0 ==> r == spec_evaluate(game.board@, player),
    decreases depth,
{
    match game.state {
        GameState::Victory(winner) => {
            return if winner == player { VICTORY_SCORE } else { -VICTORY_SCORE };
        },
        GameState::Draw(_) => {
            return 0;
        },
        GameState::Playing(_) => {},
    }
    if depth == 0 {
        return evaluate(game, player);
    }
    let moves = legal_moves(game, player);
    if moves.len() == 0 {
        return evaluate(game, player);
    }
    let ghost g = game.snap();
    let ghost d = depth as nat;
    let ghost alpha0 = alpha as int;
    let mut alpha = alpha;
    let mut best: i32 = i32::MIN + 1;
    let mut any = false;
    let mut k: usize = 0;
    let ghost mut done: int = 0;
    let ghost mut cut = false;
    while k < moves.len()
        invariant
            spec_searchable(game, player),
            game.state is Playing,
            g == game.snap(),
            d == depth as nat,
            depth >= 1,
            moves@ == spec_legal_list(g.cells, player, 49),
            forall|j: int| 0 <= j < moves@.len() ==> spec_legal_move(game.board@, player, #[trigger] moves@[j]),
            moves@.len() > 0,
            k <= moves@.len(),
            0 <= done <= moves@.len(),
            !cut ==> k == done,
            i32::MIN + 1 <= alpha0 < beta,
            any <==> done > 0,
            !any ==> alpha == alpha0,
            any ==> -SCORE_BOUND <= best <= SCORE_BOUND,
            any ==> alpha == (if best > alpha0 { best as int } else { alpha0 }),
            !cut ==> alpha < beta,
            cut ==> k == moves@.len() && best >= beta && done >= 1 && spec_best_of(g, player, d, moves@, done) >= best,
            any && !cut && best <= alpha0 ==> spec_best_of(g, player, d, moves@, done) <= best,
            any && !cut && best > alpha0 ==> spec_best_of(g, player, d, moves@, done) == best,
        decreases moves@.len() - k,
    {
        let action = moves[k];
        proof {
            assert(spec_legal_move(game.board@, player, action));
            let from = action->Move_from;
            let to = action->Move_to;
            lemma_move_accepted(game.snap(), player, from, to);
            lemma_action_hands_over(game.snap(), action);
        }
        match copy_game(game).handle_player_action(action) {
            Ok((next, _)) => {
                let child = -negamax(&next, player.opposite(), depth - 1, -beta, -alpha);
                proof {
                    assert(next.snap() == spec_after(g, moves@[done]));
                }
                let score = child;
                let ghost v = -spec_negamax(spec_after(g, moves@[done]), player.spec_opposite(), (d - 1) as nat);
                assert(spec_window(score as int, v, alpha as int, beta as int));
                assert(spec_best_of(g, player, d, moves@, done + 1) == (if done == 0 { v } else if v > spec_best_of(g, player, d, moves@, done) { v } else { spec_best_of(g, player, d, moves@, done) }));
                if !any || score > best {
                    best = score;
                }
                any = true;
                if best > alpha {
                    alpha = best;
                }
                proof {
                    done = done + 1;
                }
                if alpha >= beta {
                    proof {
                        cut = true;
                    }
                    k = moves.len();
                } else {
                    k = k + 1;
                }
            },
            Err(_) => {
                proof {
                    assert(false);
                }
                k = k + 1;
            },
        }
    }
    proof {
        if cut {
            lemma_best_of_grows(g, player, d, moves@, done, moves@.len() as int);
        }
    }
    best
}

/// What a root move is worth to `player`: the negated value, for the
/// opponent, of the position it leads to, searched `depth` plies deep.
#[verifier::opaque]
pub open spec fn spec_root_score(g: Snap, player: PlayerKind, depth: nat, a: PlayerAction) -> int {
    -spec_negamax(spec_after(g, a), player.spec_opposite(), depth)
}

/// The best root score among the first `n` of `moves` (at least one).
pub open spec fn spec_root_best(g: Snap, player: PlayerKind, depth: nat, moves: Seq<PlayerAction>, n: int) -> int
    decreases n,
{
    if n <= 1 {
        spec_root_score(g, player, depth, moves[0])
    } else {
        let prev = spec_root_best(g, player, depth, moves, n - 1);
        let v = spec_root_score(g, player, depth, moves[n - 1]);
        if v > prev { v } else { prev }
    }
}

/// The index of the first of the first `n` of `moves` (at least one) whose
/// root score is the best.
pub open spec fn spec_root_choice(g: Snap, player: PlayerKind, depth: nat, moves: Seq<PlayerAction>, n: int) -> int
    decreases n,
{
    if n <= 1 {
        0
    } else if spec_root_score(g, player, depth, moves[n - 1]) > spec_root_best(g, player, depth, moves, n - 1) {
        n - 1
    } else {
        spec_root_choice(g, player, depth, moves, n - 1)
    }
}

/// Law: the chosen root move is a best one, and the first best one: every
/// move scores at most as much, and every earlier move strictly less.
pub proof fn lemma_root_choice_is_best(g: Snap, player: PlayerKind, depth: nat, moves: Seq<PlayerAction>, n: int)
    requires
        1 <= n <= moves.len(),
    ensures
        0 <= spec_root_choice(g, player, depth, moves, n) < n,
        spec_root_score(g, player, depth, moves[spec_root_choice(g, player, depth, moves, n)]) == spec_root_best(g, player, depth, moves, n),
        forall|j: int| 0 <= j < n ==> #[trigger] spec_root_score(g, player, depth, moves[j]) <= spec_root_best(g, player, depth, moves, n),
        forall|j: int| 0 <= j < spec_root_choice(g, player, depth, moves, n)
            ==> #[trigger] spec_root_score(g, player, depth, moves[j]) < spec_root_best(g, player, depth, moves, n),
    decreases n,
{
    if n > 1 {
        lemma_root_choice_is_best(g, player, depth, moves, n - 1);
    }
}

/// Applies a legal root move to a copy of the game and scores the reply
/// search in the window `(alpha, beta)`: `None` exactly when the move is
/// refused.
fn score_candidate(game: &Game, player: PlayerKind, action: PlayerAction, depth: u8, alpha: i32, beta: i32) -> (r: Option<i32>)
    requires
        game.moves_since_capture < u16::MAX,
        spec_legal_move(game.board@, player, action),
        i32::MIN + 1 <= alpha < beta,
    ensures
        r is Some <==> spec_accepts(game.snap(), action),
        r matches Some(s) ==> -SCORE_BOUND <= s <= SCORE_BOUND
            && spec_window(s as int, spec_root_score(game.snap(), player, depth as nat, action), alpha as int, beta as int),
{
    proof {
        reveal(spec_accepts);
        reveal(spec_root_score);
        lemma_move_accepted(game.snap(), player, action->Move_from, action->Move_to);
        lemma_action_hands_over(game.snap(), action);
    }
    match copy_game(game).handle_player_action(action) {
        Ok((next, _)) => {
            proof {
                assert(next.snap() == spec_after(game.snap(), action));
            }
            Some(-negamax(&next, player.opposite(), depth, -beta, -alpha))
        },
        Err(_) => None,
    }
}

/// The search depth below a root move: one ply less, but never below 0.
pub open spec fn spec_reply_depth(depth: u8) -> nat {
    if depth > 0 { (depth - 1) as nat } else { 0 }
}

/// Returns the best move for `player` in `game` within `depth` plies, or
/// `None` if they have no legal move: the first of their legal moves (in
/// list order) with the best root score.
pub fn best_move(game: &Game, player: PlayerKind, depth: u8) -> (r: Option<PlayerAction>)
    requires
        game.moves_since_capture < u16::MAX,
    ensures
        ({
            let g = game.snap();
            let list = spec_legal_list(g.cells, player, 49);
            if g.state is Playing && g.state->Playing_0.spec_player() == player && list.len() > 0 {
                r == Some(list[spec_root_choice(g, player, spec_reply_depth(depth), list, list.len() as int)])
            } else {
                r is None
            }
        }),
        r matches Some(a) ==> a.spec_player() == player && a is Move && spec_handle_action(game.snap(), a) is Ok,
        r is None ==> forall|from: Cell, to: Cell| from.index < 49 ==>
            !(#[trigger] spec_handle_action(game.snap(), PlayerAction::Move { player, from, to }) is Ok),
{
    let moves = legal_moves(game, player);
    let ghost g = game.snap();
    let ghost cd = spec_reply_depth(depth);
    let ghost to_move = g.state is Playing && g.state->Playing_0.spec_player() == player;
    let mut best: Option<PlayerAction> = None;
    let mut best_score: i32 = i32::MIN;
    let mut alpha: i32 = i32::MIN + 1;
    let beta: i32 = i32::MAX - 1;
    let mut k: usize = 0;
    while k < moves.len()
        invariant
            game.moves_since_capture < u16::MAX,
            g == game.snap(),
            cd == spec_reply_depth(depth),
            to_move == (g.state is Playing && g.state->Playing_0.spec_player() == player),
            moves@ == spec_legal_list(g.cells, player, 49),
            forall|j: int| 0 <= j < moves@.len() ==> spec_legal_move(game.board@, player, #[trigger] moves@[j]),
            k <= moves@.len(),
            i32::MIN + 1 <= alpha <= SCORE_BOUND,
            beta == i32::MAX - 1,
            best matches Some(a) ==> a.spec_player() == player && a is Move && spec_accepts(game.snap(), a),
            !to_move ==> best is None,
            to_move && k == 0 ==> best is None && alpha == i32::MIN + 1,
            to_move && k > 0 ==> {
                &&& best == Some(moves@[spec_root_choice(g, player, cd, moves@, k as int)])
                &&& best_score == spec_root_best(g, player, cd, moves@, k as int)
                &&& alpha == best_score
            },
        decreases moves@.len() - k,
    {
        let action = moves[k];
        proof {
            assert(spec_legal_move(game.board@, player, action));
            lemma_accepts_iff(game.snap(), player, action);
            if k > 0 {
                lemma_root_choice_is_best(g, player, cd, moves@, k as int);
            }
        }
        match score_candidate(game, player, action, depth.saturating_sub(1), alpha, beta) {
            Some(score) => {
                if best.is_none() || score > best_score {
                    best_score = score;
                    best = Some(action);
                }
                if score > alpha {
                    alpha = score;
                }
            },
            None => {},
        }
        k = k + 1;
    }
    proof {
        reveal(spec_accepts);
        if best is None {
            assert forall|from: Cell, to: Cell| from.index < 49 implies
                !(#[trigger] spec_handle_action(game.snap(), PlayerAction::Move { player, from, to }) is Ok) by {
                lemma_move_accepted(game.snap(), player, from, to);
                if spec_handle_action(game.snap(), PlayerAction::Move { player, from, to }) is Ok {
                    let a = PlayerAction::Move { player, from, to };
                    assert(spec_legal_move(game.board@, player, a));
                    assert(moves@.contains(a));
                }
            }
        }
    }
    best
}

proof fn lemma_material_clear(cells: Seq<Option<Piece>>, player: PlayerKind, c: int, n: int)
    requires
        0 <= c < cells.len(),
        0 <= n <= cells.len(),
        cells[c] is Some,
    ensures
        spec_material(cells.update(c, None), player, n) == spec_material(cells, player, n) - (if c < n {
            if cells[c].unwrap().player == player { spec_value(cells[c].unwrap()) } else { -spec_value(cells[c].unwrap()) }
        } else {
            0int
        }),
    decreases n,
{
    if n > 0 {
        lemma_material_clear(cells, player, c, n - 1);
    }
}

/// Law: material counts `player`'s pieces for and the opponent's against:
/// taking an enemy piece off the board raises `player`'s material by the
/// piece's (positive) value, losing one of `player`'s own lowers it by as
/// much. With the mobility of both sides unchanged, the evaluation moves by
/// the same amount.
pub proof fn lemma_removal_shifts_material(cells: Seq<Option<Piece>>, player: PlayerKind, c: int)
    requires
        cells.len() == 49,
        0 <= c < 49,
        cells[c] is Some,
    ensures
        ({
            let p = cells[c].unwrap();
            let after = cells.update(c, None);
            &&& spec_value(p) > 0
            &&& p.player != player ==> spec_material(after, player, 49) == spec_material(cells, player, 49) + spec_value(p)
            &&& p.player == player ==> spec_material(after, player, 49) == spec_material(cells, player, 49) - spec_value(p)
            &&& (spec_move_count(after, player, 49) == spec_move_count(cells, player, 49)
                && spec_move_count(after, player.spec_opposite(), 49) == spec_move_count(cells, player.spec_opposite(), 49))
                ==> spec_evaluate(after, player) - spec_evaluate(cells, player) == spec_material(after, player, 49) - spec_material(cells, player, 49)
        }),
{
    lemma_material_clear(cells, player, c, 49);
}

/// Law: the evaluation is zero-sum.
pub proof fn lemma_evaluate_antisymmetric(cells: Seq<Option<Piece>>, player: PlayerKind)
    ensures
        spec_evaluate(cells, player) == -spec_evaluate(cells, player.spec_opposite()),
{
    lemma_material_antisymmetric(cells, player, 49);
    assert(player.spec_opposite().spec_opposite() == player);
}

proof fn lemma_material_antisymmetric(cells: Seq<Option<Piece>>, player: PlayerKind, n: int)
    ensures
        spec_material(cells, player, n) == -spec_material(cells, player.spec_opposite(), n),
    decreases n,
{
    if n > 0 {
        lemma_material_antisymmetric(cells, player, n - 1);
    }
}

} // verus!
