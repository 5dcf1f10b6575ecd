//! Board geometry for each supported board size: orthogonal neighbours,
//! the Knight movement and capture shapes, the Archer's range and
//! Manhattan distances. Every neighbour list is computed in a fixed order
//! (up, down, left, right; or left-to-right along a row), because which
//! capturing pair is found first depends on that order.
use vstd::prelude::*;
use crate::engine::types::{
    spec_board_length, spec_cell_count, spec_x, spec_y, CrownfallBoardVariant, CrownfallPlayerKind,
};

verus! {

/// A neighbour list of at most 4 cells.
#[derive(Clone, Copy)]
pub struct CellList {
    pub cells: [usize; 4],
    pub len: usize,
}

impl View for CellList {
    type V = Seq<int>;

    open spec fn view(&self) -> Seq<int> {
        Seq::new(self.len as nat, |k: int| self.cells@[k] as int)
    }
}

impl CellList {
    pub open spec fn wf(&self) -> bool {
        self.len <= 4
    }

    pub fn empty() -> (r: CellList)
        ensures
            r.wf(),
            r.len == 0,
            r@ == Seq::<int>::empty(),
    {
        let r = CellList { cells: [0; 4], len: 0 };
        assert(r@ =~= Seq::<int>::empty());
        r
    }

    pub fn push(&mut self, index: usize)
        requires
            old(self).wf(),
            old(self).len < 4,
        ensures
            final(self).wf(),
            final(self).len == old(self).len + 1,
            final(self)@ == old(self)@.push(index as int),
    {
        let ghost before = self@;
        self.cells[self.len] = index;
        self.len = self.len + 1;
        assert(self@ =~= before.push(index as int));
    }

    pub fn len(&self) -> (r: usize)
        ensures
            r == self@.len(),
    {
        self.len
    }

    pub fn get(&self, k: usize) -> (r: usize)
        requires
            self.wf(),
            k < self@.len(),
        ensures
            r == self@[k as int],
    {
        self.cells[k]
    }

    pub fn contains(&self, index: usize) -> (r: bool)
        requires
            self.wf(),
        ensures
            r == self@.contains(index as int),
    {
        let mut k: usize = 0;
        while k < self.len
            invariant
                self.wf(),
                k <= self.len,
                forall|j: int| 0 <= j < k ==> self@[j] != index,
            decreases self.len - k,
        {
            if self.cells[k] == index {
                assert(self@[k as int] == index);
                return true;
            }
            k = k + 1;
        }
        false
    }
}

pub fn cell_count(v: CrownfallBoardVariant) -> (r: usize)
    ensures
        r == spec_cell_count(v),
{
    match v {
        CrownfallBoardVariant::Mini => 25,
        CrownfallBoardVariant::Normal => 49,
        CrownfallBoardVariant::Grand => 81,
    }
}

/// Column and row of a cell.
pub fn coord(v: CrownfallBoardVariant, i: usize) -> (r: (usize, usize))
    requires
        i < spec_cell_count(v),
    ensures
        r.0 == spec_x(v, i as int),
        r.1 == spec_y(v, i as int),
        r.0 < spec_board_length(v),
        r.1 < spec_board_length(v),
        i == r.0 + r.1 * spec_board_length(v),
{
    match v {
        CrownfallBoardVariant::Mini => (i % 5, i / 5),
        CrownfallBoardVariant::Normal => (i % 7, i / 7),
        CrownfallBoardVariant::Grand => (i % 9, i / 9),
    }
}

/// Orthogonal neighbours, optionally skipping the cell above
/// (`skip_up`) or below (`skip_down`).
pub open spec fn spec_ortho_skip(v: CrownfallBoardVariant, i: int, skip_up: bool, skip_down: bool) -> Seq<int> {
    let l = spec_board_length(v);
    let x = spec_x(v, i);
    let y = spec_y(v, i);
    let s0 = Seq::<int>::empty();
    let s1 = if y > 0 && !skip_up { s0.push(i - l) } else { s0 };
    let s2 = if y + 1 < l && !skip_down { s1.push(i + l) } else { s1 };
    let s3 = if x > 0 { s2.push(i - 1) } else { s2 };
    if x + 1 < l { s3.push(i + 1) } else { s3 }
}

/// Orthogonal neighbours in up/down/left/right order.
pub open spec fn spec_ortho(v: CrownfallBoardVariant, i: int) -> Seq<int> {
    spec_ortho_skip(v, i, false, false)
}

/// A Knight's movement shape: the orthogonal neighbours minus the backward
/// one. White advances toward row 0, so its backward neighbour is below;
/// Black's is above.
pub open spec fn spec_knight_moves(v: CrownfallBoardVariant, p: CrownfallPlayerKind, i: int) -> Seq<int> {
    match p {
        CrownfallPlayerKind::White => spec_ortho_skip(v, i, false, true),
        CrownfallPlayerKind::Black => spec_ortho_skip(v, i, true, false),
    }
}

/// The row one step forward for `p`, if it is on the board.
pub open spec fn spec_forward_ok(v: CrownfallBoardVariant, p: CrownfallPlayerKind, i: int) -> bool {
    match p {
        CrownfallPlayerKind::White => spec_y(v, i) > 0,
        CrownfallPlayerKind::Black => spec_y(v, i) + 1 < spec_board_length(v),
    }
}

/// The cell straight ahead of `i` for `p`.
pub open spec fn spec_forward(v: CrownfallBoardVariant, p: CrownfallPlayerKind, i: int) -> int {
    match p {
        CrownfallPlayerKind::White => i - spec_board_length(v),
        CrownfallPlayerKind::Black => i + spec_board_length(v),
    }
}

/// The forward arc: forward-left, straight forward, forward-right.
pub open spec fn spec_knight_arcs(v: CrownfallBoardVariant, p: CrownfallPlayerKind, i: int) -> Seq<int> {
    let l = spec_board_length(v);
    let x = spec_x(v, i);
    let f = spec_forward(v, p, i);
    if spec_forward_ok(v, p, i) {
        let s1 = if x > 0 { seq![f - 1] } else { Seq::<int>::empty() };
        let s2 = s1.push(f);
        if x + 1 < l { s2.push(f + 1) } else { s2 }
    } else {
        Seq::<int>::empty()
    }
}

/// The two diagonal cells of the forward arc.
pub open spec fn spec_knight_diagonal_moves(v: CrownfallBoardVariant, p: CrownfallPlayerKind, i: int) -> Seq<int> {
    let l = spec_board_length(v);
    let x = spec_x(v, i);
    let f = spec_forward(v, p, i);
    if spec_forward_ok(v, p, i) {
        let s1 = if x > 0 { seq![f - 1] } else { Seq::<int>::empty() };
        if x + 1 < l { s1.push(f + 1) } else { s1 }
    } else {
        Seq::<int>::empty()
    }
}

/// The cells exactly two orthogonal tiles away: an Archer's reach.
pub open spec fn spec_archer_range(v: CrownfallBoardVariant, i: int) -> Seq<int> {
    let l = spec_board_length(v);
    let x = spec_x(v, i);
    let y = spec_y(v, i);
    let s0 = Seq::<int>::empty();
    let s1 = if y >= 2 { s0.push(i - 2 * l) } else { s0 };
    let s2 = if y + 2 < l { s1.push(i + 2 * l) } else { s1 };
    let s3 = if x >= 2 { s2.push(i - 2) } else { s2 };
    if x + 2 < l { s3.push(i + 2) } else { s3 }
}

/// Manhattan distance between two cells.
pub open spec fn spec_dist(v: CrownfallBoardVariant, a: int, b: int) -> int {
    let dx = spec_x(v, a) - spec_x(v, b);
    let dy = spec_y(v, a) - spec_y(v, b);
    (if dx >= 0 { dx } else { -dx }) + (if dy >= 0 { dy } else { -dy })
}

/// Every cell of a list is on the board.
pub open spec fn spec_on_board(v: CrownfallBoardVariant, s: Seq<int>) -> bool {
    forall|k: int| 0 <= k < s.len() ==> 0 <= #[trigger] s[k] < spec_cell_count(v)
}

fn ortho_skip(v: CrownfallBoardVariant, i: usize, skip_up: bool, skip_down: bool) -> (r: CellList)
    requires
        i < spec_cell_count(v),
    ensures
        r.wf(),
        r@ == spec_ortho_skip(v, i as int, skip_up, skip_down),
        spec_on_board(v, r@),
{
    let l = v.length();
    let (x, y) = coord(v, i);
    let mut out = CellList::empty();
    if y > 0 && !skip_up {
        out.push(i - l);
    }
    if y + 1 < l && !skip_down {
        out.push(i + l);
    }
    if x > 0 {
        out.push(i - 1);
    }
    if x + 1 < l {
        out.push(i + 1);
    }
    out
}

pub fn ortho(v: CrownfallBoardVariant, i: usize) -> (r: CellList)
    requires
        i < spec_cell_count(v),
    ensures
        r.wf(),
        r@ == spec_ortho(v, i as int),
        spec_on_board(v, r@),
{
    ortho_skip(v, i, false, false)
}

pub fn knight_moves(v: CrownfallBoardVariant, p: CrownfallPlayerKind, i: usize) -> (r: CellList)
    requires
        i < spec_cell_count(v),
    ensures
        r.wf(),
        r@ == spec_knight_moves(v, p, i as int),
        spec_on_board(v, r@),
{
    match p {
        CrownfallPlayerKind::White => ortho_skip(v, i, false, true),
        CrownfallPlayerKind::Black => ortho_skip(v, i, true, false),
    }
}

fn forward_row(v: CrownfallBoardVariant, p: CrownfallPlayerKind, i: usize, with_straight: bool) -> (r: CellList)
    requires
        i < spec_cell_count(v),
    ensures
        r.wf(),
        with_straight ==> r@ == spec_knight_arcs(v, p, i as int),
        !with_straight ==> r@ == spec_knight_diagonal_moves(v, p, i as int),
        spec_on_board(v, r@),
{
    let l = v.length();
    let (x, y) = coord(v, i);
    let mut out = CellList::empty();
    let ok = match p {
        CrownfallPlayerKind::White => y > 0,
        CrownfallPlayerKind::Black => y + 1 < l,
    };
    if ok {
        let f = match p {
            CrownfallPlayerKind::White => i - l,
            CrownfallPlayerKind::Black => i + l,
        };
        assert(f == spec_forward(v, p, i as int));
        if x > 0 {
            out.push(f - 1);
        }
        if with_straight {
            out.push(f);
        }
        if x + 1 < l {
            out.push(f + 1);
        }
        assert(with_straight ==> out@ =~= spec_knight_arcs(v, p, i as int));
        assert(!with_straight ==> out@ =~= spec_knight_diagonal_moves(v, p, i as int));
    }
    out
}

pub fn knight_arcs(v: CrownfallBoardVariant, p: CrownfallPlayerKind, i: usize) -> (r: CellList)
    requires
        i < spec_cell_count(v),
    ensures
        r.wf(),
        r@ == spec_knight_arcs(v, p, i as int),
        spec_on_board(v, r@),
{
    forward_row(v, p, i, true)
}

pub fn knight_diagonal_moves(v: CrownfallBoardVariant, p: CrownfallPlayerKind, i: usize) -> (r: CellList)
    requires
        i < spec_cell_count(v),
    ensures
        r.wf(),
        r@ == spec_knight_diagonal_moves(v, p, i as int),
        spec_on_board(v, r@),
{
    forward_row(v, p, i, false)
}

pub fn archer_range(v: CrownfallBoardVariant, i: usize) -> (r: CellList)
    requires
        i < spec_cell_count(v),
    ensures
        r.wf(),
        r@ == spec_archer_range(v, i as int),
        spec_on_board(v, r@),
{
    let l = v.length();
    let (x, y) = coord(v, i);
    let mut out = CellList::empty();
    if y >= 2 {
        out.push(i - 2 * l);
    }
    if y + 2 < l {
        out.push(i + 2 * l);
    }
    if x >= 2 {
        out.push(i - 2);
    }
    if x + 2 < l {
        out.push(i + 2);
    }
    out
}

pub fn dist(v: CrownfallBoardVariant, a: usize, b: usize) -> (r: usize)
    requires
        a < spec_cell_count(v),
        b < spec_cell_count(v),
    ensures
        r == spec_dist(v, a as int, b as int),
        r <= 16,
{
    let (ax, ay) = coord(v, a);
    let (bx, by) = coord(v, b);
    let dx = if ax >= bx { ax - bx } else { bx - ax };
    let dy = if ay >= by { ay - by } else { by - ay };
    dx + dy
}

} // verus!
