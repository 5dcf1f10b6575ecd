//! Capture detection on a board: which pincers a move completes, which
//! traps it walks into, and what an Archer's shot hits. Everything here is
//! read-only; the game (`play`) applies what these functions find.
//!
//! Each executable function is tied to a spec function of the same name
//! (prefixed `spec_`) over the board's cell sequence.
use vstd::prelude::*;
use crate::engine::board::CrownfallBoardState;
use crate::engine::tables::{
    archer_range, knight_arcs, knight_diagonal_moves, knight_moves, ortho, spec_archer_range,
    spec_knight_arcs, spec_knight_diagonal_moves, spec_knight_moves, spec_on_board, spec_ortho,
    coord, CellList,
};
use crate::engine::types::{
    spec_cell_count, spec_x, spec_y, CrownfallBoardCell, CrownfallBoardVariant, CrownfallPiece,
    CrownfallPieceKind, CrownfallPlayerKind, CrownfallRules,
};

verus! {

/// Which capture rule a pair of attackers satisfies.
#[derive(Clone, Copy, Debug, Eq, PartialEq, Structural)]
pub enum CaptureKind {
    Spy,
    Knight,
}

/// The first valid capturing pair found against a target.
#[derive(Clone, Copy, Debug, Eq, PartialEq, Structural)]
pub struct AttackPair {
    pub first: usize,
    pub second: usize,
    pub kind: CaptureKind,
}

/// One ordinary capture a move completes.
#[derive(Clone, Copy, Debug, Eq, PartialEq, Structural)]
pub struct PieceCapture {
    pub target: usize,
    pub pair: AttackPair,
}

/// One Archer-shot target and the ally that satisfied the adjacency rule.
#[derive(Clone, Copy, Debug, Eq, PartialEq, Structural)]
pub struct ArcherCapture {
    pub target: usize,
    pub ally: usize,
}

/// A list of at most 8 cells.
#[derive(Clone, Copy)]
pub struct CellBuf {
    pub cells: [usize; 8],
    pub len: usize,
}

impl View for CellBuf {
    type V = Seq<int>;

    open spec fn view(&self) -> Seq<int> {
        Seq::new(self.len as nat, |k: int| self.cells@[k] as int)
    }
}

impl CellBuf {
    pub open spec fn wf(&self) -> bool {
        self.len <= 8
    }

    pub fn new() -> (r: CellBuf)
        ensures
            r.wf(),
            r.len == 0,
            r@ == Seq::<int>::empty(),
    {
        let r = CellBuf { cells: [0; 8], len: 0 };
        assert(r@ =~= Seq::<int>::empty());
        r
    }

    pub fn push(&mut self, index: usize)
        requires
            old(self).wf(),
            old(self).len < 8,
        ensures
            final(self).wf(),
            final(self).len == old(self).len + 1,
            final(self)@ == old(self)@.push(index as int),
    {
        let ghost before = self@;
        self.cells[self.len] = index;
        self.len = self.len + 1;
        assert(self@ =~= before.push(index as int));
    }

    pub fn get(&self, k: usize) -> (r: usize)
        requires
            self.wf(),
            k < self@.len(),
        ensures
            r == self@[k as int],
    {
        self.cells[k]
    }

    pub fn contains(&self, index: usize) -> (r: bool)
        requires
            self.wf(),
        ensures
            r == self@.contains(index as int),
    {
        let mut k: usize = 0;
        while k < self.len
            invariant
                self.wf(),
                k <= self.len,
                forall|j: int| 0 <= j < k ==> self@[j] != index,
            decreases self.len - k,
        {
            if self.cells[k] == index {
                assert(self@[k as int] == index);
                return true;
            }
            k = k + 1;
        }
        false
    }
}

/// A list of at most 8 ordinary captures.
#[derive(Clone, Copy)]
pub struct CaptureList {
    pub items: [PieceCapture; 8],
    pub len: usize,
}

impl View for CaptureList {
    type V = Seq<PieceCapture>;

    open spec fn view(&self) -> Seq<PieceCapture> {
        Seq::new(self.len as nat, |k: int| self.items@[k])
    }
}

/// A list of at most 4 Archer-shot captures.
#[derive(Clone, Copy)]
pub struct ArcherList {
    pub items: [ArcherCapture; 4],
    pub len: usize,
}

impl View for ArcherList {
    type V = Seq<ArcherCapture>;

    open spec fn view(&self) -> Seq<ArcherCapture> {
        Seq::new(self.len as nat, |k: int| self.items@[k])
    }
}

// ---------------------------------------------------------------------
// Cell predicates
// ---------------------------------------------------------------------

pub open spec fn spec_owned(c: Option<CrownfallPiece>, p: CrownfallPlayerKind) -> bool {
    match c {
        Some(pc) => pc.spec_player() == p,
        None => false,
    }
}

pub open spec fn spec_is_knight(c: Option<CrownfallPiece>) -> bool {
    match c {
        Some(pc) => pc.spec_kind() == CrownfallPieceKind::Knight,
        None => false,
    }
}

pub open spec fn spec_knight_of(c: Option<CrownfallPiece>, p: CrownfallPlayerKind) -> bool {
    spec_owned(c, p) && spec_is_knight(c)
}

/// An enemy piece of `attacker` that the given test accepts.
pub open spec fn spec_enemy_of_kind(c: Option<CrownfallPiece>, attacker: CrownfallPlayerKind, crown: bool) -> bool {
    match c {
        Some(pc) => pc.spec_player() != attacker && (pc.spec_kind() == CrownfallPieceKind::Crown) == crown,
        None => false,
    }
}

// ---------------------------------------------------------------------
// List filters (prefix-recursive, matching the order of the scans)
// ---------------------------------------------------------------------

/// The first `n` cells of `s` holding an `attacker` piece: Knights only if
/// `knights`, non-Knights only otherwise.
pub open spec fn spec_keep_attackers(cells: Seq<Option<CrownfallPiece>>, s: Seq<int>, attacker: CrownfallPlayerKind, knights: bool, n: int) -> Seq<int>
    decreases n,
{
    if n <= 0 {
        Seq::empty()
    } else {
        let prev = spec_keep_attackers(cells, s, attacker, knights, n - 1);
        let c = cells[s[n - 1]];
        if spec_owned(c, attacker) && spec_is_knight(c) == knights {
            prev.push(s[n - 1])
        } else {
            prev
        }
    }
}

/// The first `n` cells of `s` holding any `attacker` piece.
pub open spec fn spec_keep_owned(cells: Seq<Option<CrownfallPiece>>, s: Seq<int>, attacker: CrownfallPlayerKind, n: int) -> Seq<int>
    decreases n,
{
    if n <= 0 {
        Seq::empty()
    } else {
        let prev = spec_keep_owned(cells, s, attacker, n - 1);
        if spec_owned(cells[s[n - 1]], attacker) {
            prev.push(s[n - 1])
        } else {
            prev
        }
    }
}

/// The first `n` cells of `s` that are not in `o`.
pub open spec fn spec_keep_not_in(s: Seq<int>, o: Seq<int>, n: int) -> Seq<int>
    decreases n,
{
    if n <= 0 {
        Seq::empty()
    } else {
        let prev = spec_keep_not_in(s, o, n - 1);
        if !o.contains(s[n - 1]) {
            prev.push(s[n - 1])
        } else {
            prev
        }
    }
}

/// How many of the first `n` cells of `s` hold an `attacker` Knight, counting
/// only cells on row `row` when `row` is not negative.
pub open spec fn spec_count_knights(cells: Seq<Option<CrownfallPiece>>, v: CrownfallBoardVariant, s: Seq<int>, attacker: CrownfallPlayerKind, row: int, n: int) -> int
    decreases n,
{
    if n <= 0 {
        0
    } else {
        let prev = spec_count_knights(cells, v, s, attacker, row, n - 1);
        let c = s[n - 1];
        if spec_knight_of(cells[c], attacker) && (row < 0 || spec_y(v, c) == row) {
            prev + 1
        } else {
            prev
        }
    }
}

// ---------------------------------------------------------------------
// Rule specs
// ---------------------------------------------------------------------

/// Where Knights of `player` standing at `index` capture from: the forward
/// arc normally, the forward/left/right shape when Knights move diagonally.
pub open spec fn spec_knight_capture_shape(v: CrownfallBoardVariant, player: CrownfallPlayerKind, index: int, rules: CrownfallRules) -> Seq<int> {
    if rules.ruleset.spec_knights_move_diagonally() {
        spec_knight_moves(v, player, index)
    } else {
        spec_knight_arcs(v, player, index)
    }
}

/// `attacker_cell` is a non-straight cell of the capture shape toward
/// `target`: where a just-moved Knight must land to spring a pincer.
pub open spec fn spec_is_landing_spot(v: CrownfallBoardVariant, target: int, attacker_cell: int, attacker: CrownfallPlayerKind, rules: CrownfallRules) -> bool {
    spec_x(v, attacker_cell) != spec_x(v, target) && spec_knight_capture_shape(
        v,
        attacker.spec_opposite(),
        target,
        rules,
    ).contains(attacker_cell)
}

/// At least 3 of the cells around `target` (its row flanks plus the
/// Knight capture shape) hold `attacker` Knights.
pub open spec fn spec_has_mass_knight_arc(cells: Seq<Option<CrownfallPiece>>, v: CrownfallBoardVariant, target: int, attacker: CrownfallPlayerKind, rules: CrownfallRules) -> bool {
    let o = spec_ortho(v, target);
    let shape = spec_knight_capture_shape(v, attacker.spec_opposite(), target, rules);
    spec_count_knights(cells, v, o, attacker, spec_y(v, target), o.len() as int)
        + spec_count_knights(cells, v, shape, attacker, -1, shape.len() as int) >= 3
}

/// The capture rule a pair of pieces forms: two Spies a Spy Capture; two
/// Knights, or a Knight with a Crown, a Knight Capture; anything else none.
pub open spec fn spec_capture_kind(cells: Seq<Option<CrownfallPiece>>, a: int, b: int) -> Option<CaptureKind> {
    match (cells[a], cells[b]) {
        (Some(pa), Some(pb)) => match (pa.spec_kind(), pb.spec_kind()) {
            (CrownfallPieceKind::Spy, CrownfallPieceKind::Spy) => Some(CaptureKind::Spy),
            (CrownfallPieceKind::Knight, CrownfallPieceKind::Knight) => Some(CaptureKind::Knight),
            (CrownfallPieceKind::Crown, CrownfallPieceKind::Knight) => Some(CaptureKind::Knight),
            (CrownfallPieceKind::Knight, CrownfallPieceKind::Crown) => Some(CaptureKind::Knight),
            _ => None,
        },
        _ => None,
    }
}

pub open spec fn spec_first_partner(cells: Seq<Option<CrownfallPiece>>, att: Seq<int>, i: int, j: int) -> Option<AttackPair>
    decreases att.len() - j,
{
    if j < 0 || j >= att.len() {
        None
    } else {
        match spec_capture_kind(cells, att[i], att[j]) {
            Some(k) => Some(AttackPair { first: att[i] as usize, second: att[j] as usize, kind: k }),
            None => spec_first_partner(cells, att, i, j + 1),
        }
    }
}

pub open spec fn spec_first_pair_from(cells: Seq<Option<CrownfallPiece>>, att: Seq<int>, i: int) -> Option<AttackPair>
    decreases att.len() - i,
{
    if i < 0 || i >= att.len() {
        None
    } else {
        match spec_first_partner(cells, att, i, i + 1) {
            Some(p) => Some(p),
            None => spec_first_pair_from(cells, att, i + 1),
        }
    }
}

/// The first pair (in list order) of `att` forming a valid capture.
pub open spec fn spec_first_capturing_pair(cells: Seq<Option<CrownfallPiece>>, att: Seq<int>) -> Option<AttackPair> {
    spec_first_pair_from(cells, att, 0)
}

/// The attackers of an ordinary capture against `target`: orthogonally
/// adjacent non-Knight pieces, then Knights standing in their capture shape.
pub open spec fn spec_attackers(cells: Seq<Option<CrownfallPiece>>, v: CrownfallBoardVariant, target: int, attacker: CrownfallPlayerKind, rules: CrownfallRules) -> Seq<int> {
    let o = spec_ortho(v, target);
    let shape = spec_knight_capture_shape(v, attacker.spec_opposite(), target, rules);
    spec_keep_attackers(cells, o, attacker, false, o.len() as int) + spec_keep_attackers(
        cells,
        shape,
        attacker,
        true,
        shape.len() as int,
    )
}

pub open spec fn spec_find_attacking_pair(cells: Seq<Option<CrownfallPiece>>, v: CrownfallBoardVariant, target: int, attacker: CrownfallPlayerKind, rules: CrownfallRules) -> Option<AttackPair> {
    spec_first_capturing_pair(cells, spec_attackers(cells, v, target, attacker, rules))
}

/// The attackers of a Crown: every orthogonally adjacent `attacker` piece,
/// plus the Knight that just moved to `moved` if it landed in the exposed
/// part of its capture shape.
pub open spec fn spec_crown_attackers(cells: Seq<Option<CrownfallPiece>>, v: CrownfallBoardVariant, target: int, attacker: CrownfallPlayerKind, moved: int, rules: CrownfallRules) -> Seq<int> {
    let o = spec_ortho(v, target);
    let base = spec_keep_owned(cells, o, attacker, o.len() as int);
    if spec_is_landing_spot(v, target, moved, attacker, rules) && spec_knight_of(cells[moved], attacker) {
        base.push(moved)
    } else {
        base
    }
}

pub open spec fn spec_find_crown_attacking_pair(cells: Seq<Option<CrownfallPiece>>, v: CrownfallBoardVariant, target: int, attacker: CrownfallPlayerKind, moved: int, rules: CrownfallRules) -> Option<AttackPair> {
    spec_first_capturing_pair(cells, spec_crown_attackers(cells, v, target, attacker, moved, rules))
}

/// The piece of `mover` just moved to `at` (not a Crown) stands in an
/// enemy Spy pincer.
pub open spec fn spec_check_self_spy_trap(cells: Seq<Option<CrownfallPiece>>, v: CrownfallBoardVariant, at: int, mover: CrownfallPlayerKind, rules: CrownfallRules) -> bool {
    match cells[at] {
        Some(pc) => pc.spec_player() == mover && pc.spec_kind() != CrownfallPieceKind::Crown && match spec_find_attacking_pair(cells, v, at, mover.spec_opposite(), rules) {
            Some(pair) => pair.kind == CaptureKind::Spy,
            None => false,
        },
        None => false,
    }
}

/// The Crown of `mover` just moved to `at` walked into an enemy pair.
pub open spec fn spec_check_own_crown_trap(cells: Seq<Option<CrownfallPiece>>, v: CrownfallBoardVariant, at: int, mover: CrownfallPlayerKind, rules: CrownfallRules) -> bool {
    match cells[at] {
        Some(pc) => pc.spec_player() == mover && pc.spec_kind() == CrownfallPieceKind::Crown
            && spec_find_crown_attacking_pair(cells, v, at, mover.spec_opposite(), at, rules).is_some(),
        None => false,
    }
}

/// Cells a piece just moved to `to` may now threaten: its orthogonal
/// neighbours, plus (for a Knight) the rest of its capture shape.
pub open spec fn spec_capture_scan_cells(cells: Seq<Option<CrownfallPiece>>, v: CrownfallBoardVariant, to: int, mover: CrownfallPlayerKind, rules: CrownfallRules) -> Seq<int> {
    let o = spec_ortho(v, to);
    if spec_is_knight(cells[to]) {
        let shape = spec_knight_capture_shape(v, mover, to, rules);
        o + spec_keep_not_in(shape, o, shape.len() as int)
    } else {
        o
    }
}

/// Whether the piece that just moved to `to` can be the one springing an
/// ordinary pincer against `target`: a Knight only from the exposed part of
/// its capture shape; a Crown never (it is only ever the stationary
/// partner); a Spy or an Archer always.
pub open spec fn spec_moved_knight_completes_pincer(cells: Seq<Option<CrownfallPiece>>, v: CrownfallBoardVariant, to: int, target: int, attacker: CrownfallPlayerKind, rules: CrownfallRules) -> bool {
    match cells[to] {
        Some(pc) => if pc.spec_kind() == CrownfallPieceKind::Knight {
            spec_is_landing_spot(v, target, to, attacker, rules)
        } else {
            pc.spec_kind() != CrownfallPieceKind::Crown
        },
        None => true,
    }
}

pub open spec fn spec_crown_capture_from(cells: Seq<Option<CrownfallPiece>>, v: CrownfallBoardVariant, scan: Seq<int>, k: int, to: int, attacker: CrownfallPlayerKind, rules: CrownfallRules) -> Option<int>
    decreases scan.len() - k,
{
    if k < 0 || k >= scan.len() {
        None
    } else {
        let c = scan[k];
        if spec_enemy_of_kind(cells[c], attacker, true) && spec_find_crown_attacking_pair(
            cells,
            v,
            c,
            attacker,
            to,
            rules,
        ).is_some() {
            Some(c)
        } else {
            spec_crown_capture_from(cells, v, scan, k + 1, to, attacker, rules)
        }
    }
}

/// The enemy Crown (if any) the move to `to` captures.
pub open spec fn spec_check_crown_capture(cells: Seq<Option<CrownfallPiece>>, v: CrownfallBoardVariant, to: int, attacker: CrownfallPlayerKind, rules: CrownfallRules) -> Option<int> {
    spec_crown_capture_from(cells, v, spec_capture_scan_cells(cells, v, to, attacker, rules), 0, to, attacker, rules)
}

/// The first partner (in list order) that forms a capturing pair with the
/// piece at `to`, searching `att` from position `j`.
pub open spec fn spec_partner_from(cells: Seq<Option<CrownfallPiece>>, att: Seq<int>, to: int, j: int) -> Option<AttackPair>
    decreases att.len() - j,
{
    if j < 0 || j >= att.len() {
        None
    } else if att[j] != to && spec_capture_kind(cells, to, att[j]) is Some {
        Some(AttackPair { first: to as usize, second: att[j] as usize, kind: spec_capture_kind(cells, to, att[j]).unwrap() })
    } else {
        spec_partner_from(cells, att, to, j + 1)
    }
}

/// The pincer against `target` that the piece just moved to `to` completes:
/// the mover must itself be one of the attackers, paired with the first
/// partner that forms a capture with it. A pair already standing around
/// `target` without the mover springs nothing.
pub open spec fn spec_find_mover_pair(cells: Seq<Option<CrownfallPiece>>, v: CrownfallBoardVariant, target: int, to: int, attacker: CrownfallPlayerKind, rules: CrownfallRules) -> Option<AttackPair> {
    let att = spec_attackers(cells, v, target, attacker, rules);
    if att.contains(to) {
        spec_partner_from(cells, att, to, 0)
    } else {
        None
    }
}

pub open spec fn spec_piece_capture_at(cells: Seq<Option<CrownfallPiece>>, v: CrownfallBoardVariant, c: int, to: int, attacker: CrownfallPlayerKind, rules: CrownfallRules) -> Option<PieceCapture> {
    if spec_enemy_of_kind(cells[c], attacker, false) && spec_moved_knight_completes_pincer(
        cells,
        v,
        to,
        c,
        attacker,
        rules,
    ) {
        match spec_find_mover_pair(cells, v, c, to, attacker, rules) {
            Some(pair) => Some(PieceCapture { target: c as usize, pair }),
            None => None,
        }
    } else {
        None
    }
}

pub open spec fn spec_piece_captures_upto(cells: Seq<Option<CrownfallPiece>>, v: CrownfallBoardVariant, scan: Seq<int>, n: int, to: int, attacker: CrownfallPlayerKind, rules: CrownfallRules) -> Seq<PieceCapture>
    decreases n,
{
    if n <= 0 {
        Seq::empty()
    } else {
        let prev = spec_piece_captures_upto(cells, v, scan, n - 1, to, attacker, rules);
        match spec_piece_capture_at(cells, v, scan[n - 1], to, attacker, rules) {
            Some(pc) => prev.push(pc),
            None => prev,
        }
    }
}

/// Every ordinary (non-Crown) capture the move to `to` completes.
pub open spec fn spec_check_piece_captures(cells: Seq<Option<CrownfallPiece>>, v: CrownfallBoardVariant, to: int, attacker: CrownfallPlayerKind, rules: CrownfallRules) -> Seq<PieceCapture> {
    let scan = spec_capture_scan_cells(cells, v, to, attacker, rules);
    spec_piece_captures_upto(cells, v, scan, scan.len() as int, to, attacker, rules)
}

/// The first orthogonal neighbour of `target` holding an `attacker`
/// Crown/Knight/Spy (never an Archer), scanning from position `k`.
pub open spec fn spec_first_ally_from(cells: Seq<Option<CrownfallPiece>>, o: Seq<int>, k: int, attacker: CrownfallPlayerKind) -> Option<int>
    decreases o.len() - k,
{
    if k < 0 || k >= o.len() {
        None
    } else {
        let c = cells[o[k]];
        if spec_owned(c, attacker) && c.unwrap().spec_kind() != CrownfallPieceKind::Archer {
            Some(o[k])
        } else {
            spec_first_ally_from(cells, o, k + 1, attacker)
        }
    }
}

pub open spec fn spec_archer_capture_at(cells: Seq<Option<CrownfallPiece>>, v: CrownfallBoardVariant, c: int, attacker: CrownfallPlayerKind) -> Option<ArcherCapture> {
    if spec_enemy_of_kind(cells[c], attacker, false) {
        match spec_first_ally_from(cells, spec_ortho(v, c), 0, attacker) {
            Some(ally) => Some(ArcherCapture { target: c as usize, ally: ally as usize }),
            None => None,
        }
    } else {
        None
    }
}

pub open spec fn spec_archer_captures_upto(cells: Seq<Option<CrownfallPiece>>, v: CrownfallBoardVariant, range: Seq<int>, n: int, attacker: CrownfallPlayerKind) -> Seq<ArcherCapture>
    decreases n,
{
    if n <= 0 {
        Seq::empty()
    } else {
        let prev = spec_archer_captures_upto(cells, v, range, n - 1, attacker);
        match spec_archer_capture_at(cells, v, range[n - 1], attacker) {
            Some(ac) => prev.push(ac),
            None => prev,
        }
    }
}

/// Every enemy piece (never a Crown) exactly two orthogonal tiles from the
/// Archer at `to` that has an allied non-Archer orthogonally beside it.
pub open spec fn spec_check_archer_capture(cells: Seq<Option<CrownfallPiece>>, v: CrownfallBoardVariant, to: int, attacker: CrownfallPlayerKind) -> Seq<ArcherCapture> {
    let range = spec_archer_range(v, to);
    spec_archer_captures_upto(cells, v, range, range.len() as int, attacker)
}

/// The piece just moved to `to` captures at least one enemy piece.
pub open spec fn spec_move_captures_something(cells: Seq<Option<CrownfallPiece>>, v: CrownfallBoardVariant, to: int, player: CrownfallPlayerKind, kind: CrownfallPieceKind, rules: CrownfallRules) -> bool {
    spec_check_crown_capture(cells, v, to, player, rules).is_some()
        || spec_check_piece_captures(cells, v, to, player, rules).len() > 0
        || (kind == CrownfallPieceKind::Archer && spec_check_archer_capture(cells, v, to, player).len() > 0)
}

/// Candidate destinations of the piece at `cell`, ignoring occupancy.
pub open spec fn spec_move_candidates(cells: Seq<Option<CrownfallPiece>>, v: CrownfallBoardVariant, cell: int, rules: CrownfallRules) -> Seq<int> {
    match cells[cell] {
        Some(pc) => if pc.spec_kind() == CrownfallPieceKind::Knight {
            if rules.ruleset.spec_knights_move_diagonally() {
                spec_knight_diagonal_moves(v, pc.spec_player(), cell)
            } else {
                spec_knight_moves(v, pc.spec_player(), cell)
            }
        } else {
            spec_ortho(v, cell)
        },
        None => Seq::empty(),
    }
}

/// The board after moving `piece` from `from` to `to`.
pub open spec fn spec_moved(cells: Seq<Option<CrownfallPiece>>, from: int, to: int, piece: CrownfallPiece) -> Seq<Option<CrownfallPiece>> {
    cells.update(from, None).update(to, Some(piece))
}

/// Moving the piece at `from` to the empty candidate `to` is a legal step.
pub open spec fn spec_is_step(cells: Seq<Option<CrownfallPiece>>, v: CrownfallBoardVariant, from: int, to: int, rules: CrownfallRules) -> bool {
    &&& 0 <= from < cells.len()
    &&& cells[from].is_some()
    &&& spec_move_candidates(cells, v, from, rules).contains(to)
    &&& cells[to].is_none()
}

/// `player` has some legal step that captures an enemy piece.
pub open spec fn spec_has_available_capture(cells: Seq<Option<CrownfallPiece>>, v: CrownfallBoardVariant, player: CrownfallPlayerKind, rules: CrownfallRules) -> bool {
    exists|from: int, to: int|
        #![trigger spec_move_candidates(cells, v, from, rules).contains(to)]
        spec_is_step(cells, v, from, to, rules) && spec_owned(cells[from], player)
            && spec_move_captures_something(
            spec_moved(cells, from, to, cells[from].unwrap()),
            v,
            to,
            player,
            cells[from].unwrap().spec_kind(),
            rules,
        )
}

} // verus!

verus! {

/// An optional cell index as a machine index.
pub open spec fn spec_opt_usize(o: Option<int>) -> Option<usize> {
    match o {
        Some(c) => Some(c as usize),
        None => None,
    }
}

} // verus!

verus! {

/// Whether the step `from -> to` by the piece at `from` captures an enemy
/// piece (judged on the board after the step).
pub open spec fn spec_step_captures(cells: Seq<Option<CrownfallPiece>>, v: CrownfallBoardVariant, from: int, to: int, player: CrownfallPlayerKind, rules: CrownfallRules) -> bool {
    spec_move_captures_something(
        spec_moved(cells, from, to, cells[from].unwrap()),
        v,
        to,
        player,
        cells[from].unwrap().spec_kind(),
        rules,
    )
}

/// The first `n` cells of `s` that are empty, as board cells.
pub open spec fn spec_keep_empty(cells: Seq<Option<CrownfallPiece>>, s: Seq<int>, n: int) -> Seq<CrownfallBoardCell>
    decreases n,
{
    if n <= 0 {
        Seq::empty()
    } else {
        let prev = spec_keep_empty(cells, s, n - 1);
        if cells[s[n - 1]].is_none() {
            prev.push(CrownfallBoardCell { index: s[n - 1] as u8 })
        } else {
            prev
        }
    }
}

/// Legal destinations of the piece at `cell`: its empty candidates.
pub open spec fn spec_valid_destinations(cells: Seq<Option<CrownfallPiece>>, v: CrownfallBoardVariant, cell: int, rules: CrownfallRules) -> Seq<CrownfallBoardCell> {
    let cands = spec_move_candidates(cells, v, cell, rules);
    spec_keep_empty(cells, cands, cands.len() as int)
}

/// What a candidate move would capture, without applying it.
pub struct MoveCapturePreview {
    /// Enemy pieces the move captures, in resolution order.
    pub captured: Vec<CrownfallBoardCell>,
    /// The moved piece itself is lost (walked into a trap).
    pub mover_captured: bool,
}

impl Default for MoveCapturePreview {
    fn default() -> (r: MoveCapturePreview)
        ensures
            r.captured@ == Seq::<CrownfallBoardCell>::empty(),
            !r.mover_captured,
    {
        MoveCapturePreview { captured: Vec::new(), mover_captured: false }
    }
}

pub open spec fn spec_cell_of(i: int) -> CrownfallBoardCell {
    CrownfallBoardCell { index: i as u8 }
}

pub open spec fn spec_capture_targets(pcs: Seq<PieceCapture>) -> Seq<CrownfallBoardCell> {
    pcs.map_values(|p: PieceCapture| spec_cell_of(p.target as int))
}

pub open spec fn spec_archer_targets(acs: Seq<ArcherCapture>) -> Seq<CrownfallBoardCell> {
    acs.map_values(|a: ArcherCapture| spec_cell_of(a.target as int))
}

/// The preview of moving the piece at `from` to `to`: `None` if the step is
/// not legal, else the captured cells and whether the mover is lost, in the
/// priority order the move itself resolves them.
pub open spec fn spec_preview(cells: Seq<Option<CrownfallPiece>>, v: CrownfallBoardVariant, from: int, to: int, rules: CrownfallRules) -> Option<(Seq<CrownfallBoardCell>, bool)> {
    match cells[from] {
        None => None,
        Some(piece) => if cells[to].is_some() || !spec_move_candidates(cells, v, from, rules).contains(to) {
            None
        } else {
            let player = piece.spec_player();
            let s = spec_moved(cells, from, to, piece);
            let acp = rules.ruleset.spec_all_captures_processed();
            if spec_check_own_crown_trap(s, v, to, player, rules) {
                Some((Seq::empty(), true))
            } else {
                let crown = spec_check_crown_capture(s, v, to, player, rules);
                let c1 = match crown {
                    Some(c) => seq![spec_cell_of(c)],
                    None => Seq::empty(),
                };
                if crown.is_some() && !acp {
                    Some((c1, false))
                } else {
                    let trapped = spec_check_self_spy_trap(s, v, to, player, rules);
                    if trapped && !acp {
                        Some((c1, true))
                    } else {
                        let pcs = spec_check_piece_captures(s, v, to, player, rules);
                        let c2 = c1 + spec_capture_targets(pcs);
                        if pcs.len() > 0 && !acp {
                            Some((c2, trapped))
                        } else if piece.spec_kind() == CrownfallPieceKind::Archer {
                            Some((c2 + spec_archer_targets(spec_check_archer_capture(s, v, to, player)), trapped))
                        } else {
                            Some((c2, trapped))
                        }
                    }
                }
            }
        },
    }
}

} // verus!
