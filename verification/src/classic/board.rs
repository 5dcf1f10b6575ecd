//! Board queries of the 7x7 game: movement, pincers and piece counts.
use vstd::prelude::*;
use crate::engine::captures::{spec_keep_not_in, CellBuf};
use crate::engine::tables::{knight_arcs, ortho, spec_on_board, CellList};
use crate::engine::types::{CrownfallBoardVariant, CrownfallPlayerKind};
use crate::classic::rules::{
    spec_arc, spec_candidates, spec_capture_kind, spec_captures_upto, spec_count,
    spec_crown_attackers, spec_crown_capture, spec_crown_capture_from, spec_destinations,
    spec_diagonally_forward, spec_engine_player, spec_find_crown_pair, spec_find_pair,
    spec_first_pair, spec_first_pair_from, spec_first_partner, spec_keep_empty,
    spec_keep_owned, spec_mutual_exhaustion, spec_neighbours, spec_own_crown_trap,
    spec_piece_captures, spec_piece_count, spec_attrition_defeated, spec_scan,
    spec_self_spy_trap, CaptureKind, Pair,
};
use crate::classic::types::{spec_lx, BoardState, Cell, Piece, PieceKind, PlayerKind};

verus! {

broadcast use vstd::array::group_array_axioms;

fn engine_player(p: PlayerKind) -> (r: CrownfallPlayerKind)
    ensures
        r == spec_engine_player(p),
{
    match p {
        PlayerKind::White => CrownfallPlayerKind::White,
        PlayerKind::Black => CrownfallPlayerKind::Black,
    }
}

proof fn lemma_keep_owned_on_board(cells: Seq<Option<Piece>>, s: Seq<int>, p: PlayerKind, n: int)
    requires
        spec_on_board(CrownfallBoardVariant::Normal, s),
        n <= s.len(),
    ensures
        spec_on_board(CrownfallBoardVariant::Normal, spec_keep_owned(cells, s, p, n)),
    decreases n,
{
    if n > 0 {
        lemma_keep_owned_on_board(cells, s, p, n - 1);
    }
}

proof fn lemma_keep_not_in_on_board(s: Seq<int>, o: Seq<int>, n: int)
    requires
        spec_on_board(CrownfallBoardVariant::Normal, s),
        n <= s.len(),
    ensures
        spec_on_board(CrownfallBoardVariant::Normal, spec_keep_not_in(s, o, n)),
    decreases n,
{
    if n > 0 {
        lemma_keep_not_in_on_board(s, o, n - 1);
    }
}

/// The starting layout: each side's 6 Knights staggered across two rows
/// (4 on the row in front of the Crown, 2 one row further forward in the
/// gaps), a Spy in front of the Crown and two flanking it.
pub open spec fn spec_default_cell(i: int) -> Option<Piece> {
    let x = spec_lx(i);
    let y = i / 7;
    let home = if y <= 2 { y } else { 6 - y };
    let player = if y <= 2 { PlayerKind::Black } else { PlayerKind::White };
    if y == 3 {
        None
    } else if home == 0 {
        if x == 3 {
            Some(Piece { kind: PieceKind::Crown, player })
        } else if x == 2 || x == 4 {
            Some(Piece { kind: PieceKind::Spy, player })
        } else {
            None
        }
    } else if home == 1 {
        if x == 3 {
            Some(Piece { kind: PieceKind::Spy, player })
        } else if x == 0 || x == 2 || x == 4 || x == 6 {
            Some(Piece { kind: PieceKind::Knight, player })
        } else {
            None
        }
    } else if x == 1 || x == 5 {
        Some(Piece { kind: PieceKind::Knight, player })
    } else {
        None
    }
}

fn default_cell(i: usize) -> (r: Option<Piece>)
    requires
        i < 49,
    ensures
        r == spec_default_cell(i as int),
{
    let x = i % 7;
    let y = i / 7;
    let home = if y <= 2 { y } else { 6 - y };
    let player = if y <= 2 { PlayerKind::Black } else { PlayerKind::White };
    if y == 3 {
        None
    } else if home == 0 {
        if x == 3 {
            Some(Piece { kind: PieceKind::Crown, player })
        } else if x == 2 || x == 4 {
            Some(Piece { kind: PieceKind::Spy, player })
        } else {
            None
        }
    } else if home == 1 {
        if x == 3 {
            Some(Piece { kind: PieceKind::Spy, player })
        } else if x == 0 || x == 2 || x == 4 || x == 6 {
            Some(Piece { kind: PieceKind::Knight, player })
        } else {
            None
        }
    } else if x == 1 || x == 5 {
        Some(Piece { kind: PieceKind::Knight, player })
    } else {
        None
    }
}

impl Default for BoardState {
    /// The starting layout (see `spec_default_cell`).
    fn default() -> (r: BoardState)
        ensures
            r@ == Seq::new(49, |i: int| spec_default_cell(i)),
    {
        let mut board = BoardState { cells: [None; 49] };
        let mut i: usize = 0;
        while i < 49
            invariant
                i <= 49,
                board@.len() == 49,
                forall|j: int| 0 <= j < i ==> #[trigger] board@[j] == spec_default_cell(j),
            decreases 49 - i,
        {
            let c = default_cell(i);
            board.cells[i] = c;
            i = i + 1;
        }
        assert(board@ =~= Seq::new(49, |i: int| spec_default_cell(i)));
        board
    }
}

impl BoardState {
    pub fn neighbours(i: usize) -> (r: CellList)
        requires
            i < 49,
        ensures
            r.wf(),
            r@ == spec_neighbours(i as int),
            spec_on_board(CrownfallBoardVariant::Normal, r@),
    {
        ortho(CrownfallBoardVariant::Normal, i)
    }

    pub fn arc(i: usize, p: PlayerKind) -> (r: CellList)
        requires
            i < 49,
        ensures
            r.wf(),
            r@ == spec_arc(i as int, p),
            spec_on_board(CrownfallBoardVariant::Normal, r@),
    {
        knight_arcs(CrownfallBoardVariant::Normal, engine_player(p), i)
    }

    /// Where the piece at `i` may step, ignoring occupancy: a Knight's
    /// forward arc, every other piece's orthogonal neighbours.
    pub fn candidates(&self, i: usize) -> (r: CellList)
        requires
            i < 49,
        ensures
            r.wf(),
            r@ == spec_candidates(self@, i as int),
            spec_on_board(CrownfallBoardVariant::Normal, r@),
    {
        match self.cells[i] {
            Some(pc) => if pc.kind == PieceKind::Knight {
                BoardState::arc(i, pc.player)
            } else {
                BoardState::neighbours(i)
            },
            None => CellList::empty(),
        }
    }

    /// Legal move destinations for the piece at `cell`: its empty
    /// candidate cells.
    pub fn get_valid_destinations_for(&self, cell: Cell) -> (r: Vec<Cell>)
        requires
            cell.index < 49,
        ensures
            r@ == spec_destinations(self@, cell.index as int),
            forall|k: int| 0 <= k < r@.len() ==> (#[trigger] r@[k]).index < 49,
    {
        let cands = self.candidates(cell.index);
        let ghost cv = cands@;
        let mut out: Vec<Cell> = Vec::new();
        let mut k: usize = 0;
        while k < cands.len
            invariant
                cands.wf(),
                cv == cands@,
                spec_on_board(CrownfallBoardVariant::Normal, cv),
                self@.len() == 49,
                k <= cands.len,
                out@ == spec_keep_empty(self@, cv, k as int),
                forall|j: int| 0 <= j < out@.len() ==> (#[trigger] out@[j]).index < 49,
            decreases cands.len - k,
        {
            let c = cands.get(k);
            if self.cells[c].is_none() {
                out.push(Cell { index: c });
            }
            k = k + 1;
        }
        out
    }

    fn keep_owned(&self, s: &CellList, p: PlayerKind, out: &mut CellBuf)
        requires
            s.wf(),
            spec_on_board(CrownfallBoardVariant::Normal, s@),
            old(out).wf(),
            old(out).len + s.len <= 8,
        ensures
            final(out).wf(),
            final(out).len <= old(out).len + s.len,
            final(out)@ == old(out)@ + spec_keep_owned(self@, s@, p, s@.len() as int),
    {
        let ghost start = out@;
        let ghost start_len = out.len;
        let mut k: usize = 0;
        while k < s.len
            invariant
                s.wf(),
                spec_on_board(CrownfallBoardVariant::Normal, s@),
                self@.len() == 49,
                k <= s.len,
                out.wf(),
                out.len <= start_len + k,
                start_len + s.len <= 8,
                out@ == start + spec_keep_owned(self@, s@, p, k as int),
            decreases s.len - k,
        {
            let c = s.get(k);
            let take = match self.cells[c] {
                Some(pc) => pc.player == p,
                None => false,
            };
            if take {
                out.push(c);
            }
            k = k + 1;
            assert(out@ =~= start + spec_keep_owned(self@, s@, p, k as int));
        }
    }

    fn capture_kind(&self, a: usize, b: usize) -> (r: Option<CaptureKind>)
        requires
            a < 49,
            b < 49,
        ensures
            r == spec_capture_kind(self@, a as int, b as int),
    {
        match (self.cells[a], self.cells[b]) {
            (Some(pa), Some(pb)) => match (pa.kind, pb.kind) {
                (PieceKind::Spy, PieceKind::Spy) => Some(CaptureKind::Spy),
                (PieceKind::Knight, PieceKind::Knight) => Some(CaptureKind::Knight),
                (PieceKind::Crown, PieceKind::Knight) => Some(CaptureKind::Knight),
                (PieceKind::Knight, PieceKind::Crown) => Some(CaptureKind::Knight),
                _ => None,
            },
            _ => None,
        }
    }

    fn first_pair(&self, att: &CellBuf) -> (r: Option<Pair>)
        requires
            att.wf(),
            spec_on_board(CrownfallBoardVariant::Normal, att@),
        ensures
            r == spec_first_pair(self@, att@),
            r matches Some(p) ==> p.first < 49 && p.second < 49,
    {
        let n = att.len;
        let mut i: usize = 0;
        while i < n
            invariant
                att.wf(),
                n == att.len,
                spec_on_board(CrownfallBoardVariant::Normal, att@),
                self@.len() == 49,
                i <= n,
                spec_first_pair_from(self@, att@, 0) == spec_first_pair_from(self@, att@, i as int),
            decreases n - i,
        {
            let mut j: usize = i + 1;
            while j < n
                invariant
                    att.wf(),
                    n == att.len,
                    spec_on_board(CrownfallBoardVariant::Normal, att@),
                    self@.len() == 49,
                    i < n,
                    i + 1 <= j <= n,
                    spec_first_pair_from(self@, att@, 0) == spec_first_pair_from(self@, att@, i as int),
                    spec_first_partner(self@, att@, i as int, i + 1) == spec_first_partner(self@, att@, i as int, j as int),
                decreases n - j,
            {
                let a = att.get(i);
                let b = att.get(j);
                match self.capture_kind(a, b) {
                    Some(kind) => {
                        assert(att@[i as int] == a && att@[j as int] == b);
                        return Some(Pair { first: a, second: b, kind });
                    },
                    None => {},
                }
                j = j + 1;
            }
            i = i + 1;
        }
        None
    }

    /// A capturing pincer against `target` by `attacker`'s pieces on its
    /// orthogonal sides, if any (extra attacker pieces never block one).
    pub fn find_pair(&self, target: usize, attacker: PlayerKind) -> (r: Option<Pair>)
        requires
            target < 49,
        ensures
            r == spec_find_pair(self@, target as int, attacker),
            r matches Some(p) ==> p.first < 49 && p.second < 49,
    {
        let o = BoardState::neighbours(target);
        let mut att = CellBuf::new();
        self.keep_owned(&o, attacker, &mut att);
        proof {
            lemma_keep_owned_on_board(self@, o@, attacker, o@.len() as int);
            assert(att@ =~= spec_keep_owned(self@, o@, attacker, o@.len() as int));
        }
        self.first_pair(&att)
    }

    fn diagonally_forward(target: usize, cell: usize, attacker: PlayerKind) -> (r: bool)
        requires
            target < 49,
            cell < 49,
        ensures
            r == spec_diagonally_forward(target as int, cell as int, attacker),
    {
        if cell % 7 == target % 7 {
            return false;
        }
        BoardState::arc(target, attacker.opposite()).contains(cell)
    }

    /// A capturing pincer against the Crown at `target`: its orthogonal
    /// neighbours, plus the Knight just moved to `moved` when it landed
    /// diagonally ahead of the Crown.
    pub fn find_crown_pair(&self, target: usize, attacker: PlayerKind, moved: usize) -> (r: Option<Pair>)
        requires
            target < 49,
            moved < 49,
        ensures
            r == spec_find_crown_pair(self@, target as int, attacker, moved as int),
            r matches Some(p) ==> p.first < 49 && p.second < 49,
    {
        let o = BoardState::neighbours(target);
        let mut att = CellBuf::new();
        self.keep_owned(&o, attacker, &mut att);
        proof {
            lemma_keep_owned_on_board(self@, o@, attacker, o@.len() as int);
            assert(att@ =~= spec_keep_owned(self@, o@, attacker, o@.len() as int));
        }
        let moved_is_knight = match self.cells[moved] {
            Some(pc) => pc.player == attacker && pc.kind == PieceKind::Knight,
            None => false,
        };
        if BoardState::diagonally_forward(target, moved, attacker) && moved_is_knight {
            att.push(moved);
        }
        assert(att@ =~= spec_crown_attackers(self@, target as int, attacker, moved as int));
        self.first_pair(&att)
    }

    pub fn self_spy_trap(&self, at: usize, mover: PlayerKind) -> (r: bool)
        requires
            at < 49,
        ensures
            r == spec_self_spy_trap(self@, at as int, mover),
    {
        match self.cells[at] {
            Some(pc) => {
                if pc.player == mover && pc.kind != PieceKind::Crown {
                    match self.find_pair(at, mover.opposite()) {
                        Some(p) => p.kind == CaptureKind::Spy,
                        None => false,
                    }
                } else {
                    false
                }
            },
            None => false,
        }
    }

    pub fn own_crown_trap(&self, at: usize, mover: PlayerKind) -> (r: bool)
        requires
            at < 49,
        ensures
            r == spec_own_crown_trap(self@, at as int, mover),
    {
        match self.cells[at] {
            Some(pc) => pc.player == mover && pc.kind == PieceKind::Crown && self.find_crown_pair(at, mover.opposite(), at).is_some(),
            None => false,
        }
    }

    /// Cells the piece just moved to `to` may threaten.
    pub fn scan(&self, to: usize, mover: PlayerKind) -> (r: CellBuf)
        requires
            to < 49,
        ensures
            r.wf(),
            r@ == spec_scan(self@, to as int, mover),
            spec_on_board(CrownfallBoardVariant::Normal, r@),
    {
        let o = BoardState::neighbours(to);
        let mut cells = CellBuf::new();
        let mut k: usize = 0;
        while k < o.len
            invariant
                o.wf(),
                k <= o.len,
                cells.wf(),
                cells.len == k,
                cells@ =~= o@.take(k as int),
            decreases o.len - k,
        {
            cells.push(o.get(k));
            k = k + 1;
            assert(cells@ =~= o@.take(k as int));
        }
        assert(cells@ =~= o@);
        let is_knight = match self.cells[to] {
            Some(pc) => pc.kind == PieceKind::Knight,
            None => false,
        };
        if is_knight {
            let a = BoardState::arc(to, mover);
            let ghost av = a@;
            let mut m: usize = 0;
            while m < a.len
                invariant
                    a.wf(),
                    av == a@,
                    o.wf(),
                    m <= a.len,
                    cells.wf(),
                    cells.len <= o.len + m,
                    cells@ == o@ + spec_keep_not_in(av, o@, m as int),
                decreases a.len - m,
            {
                let c = a.get(m);
                if !o.contains(c) {
                    cells.push(c);
                }
                m = m + 1;
                assert(cells@ =~= o@ + spec_keep_not_in(av, o@, m as int));
            }
            proof {
                lemma_keep_not_in_on_board(av, o@, av.len() as int);
                assert forall|j: int| 0 <= j < cells@.len() implies 0 <= #[trigger] cells@[j] < 49 by {
                    if j < o@.len() {
                        assert(cells@[j] == o@[j]);
                    } else {
                        assert(cells@[j] == spec_keep_not_in(av, o@, av.len() as int)[j - o@.len()]);
                    }
                }
            }
        }
        cells
    }

    /// The enemy Crown captured by the move to `to`, if any.
    pub fn crown_capture(&self, to: usize, attacker: PlayerKind) -> (r: Option<usize>)
        requires
            to < 49,
        ensures
            r is Some <==> spec_crown_capture(self@, to as int, attacker) is Some,
            r matches Some(c) ==> c < 49 && spec_crown_capture(self@, to as int, attacker).unwrap() == c as int,
    {
        let scan = self.scan(to, attacker);
        let ghost sv = scan@;
        let mut k: usize = 0;
        while k < scan.len
            invariant
                scan.wf(),
                sv == scan@,
                sv == spec_scan(self@, to as int, attacker),
                spec_on_board(CrownfallBoardVariant::Normal, sv),
                self@.len() == 49,
                to < 49,
                k <= scan.len,
                spec_crown_capture_from(self@, sv, 0, to as int, attacker) == spec_crown_capture_from(self@, sv, k as int, to as int, attacker),
            decreases scan.len - k,
        {
            let c = scan.get(k);
            let enemy_crown = match self.cells[c] {
                Some(pc) => pc.player != attacker && pc.kind == PieceKind::Crown,
                None => false,
            };
            if enemy_crown && self.find_crown_pair(c, attacker, to).is_some() {
                assert(spec_crown_capture_from(self@, sv, k as int, to as int, attacker) == Some(c as int));
                return Some(c);
            }
            k = k + 1;
        }
        None
    }

    /// Every ordinary capture the move to `to` completes, in scan order.
    pub fn piece_captures(&self, to: usize, attacker: PlayerKind) -> (r: Vec<(usize, Pair)>)
        requires
            to < 49,
        ensures
            r@.len() == spec_piece_captures(self@, to as int, attacker).len(),
            forall|k: int| 0 <= k < r@.len() ==> {
                &&& (#[trigger] r@[k]).0 as int == spec_piece_captures(self@, to as int, attacker)[k].0
                &&& r@[k].1 == spec_piece_captures(self@, to as int, attacker)[k].1
                &&& r@[k].0 < 49
                &&& r@[k].1.first < 49
                &&& r@[k].1.second < 49
            },
    {
        let scan = self.scan(to, attacker);
        let ghost sv = scan@;
        let mut out: Vec<(usize, Pair)> = Vec::new();
        let mut k: usize = 0;
        while k < scan.len
            invariant
                scan.wf(),
                sv == scan@,
                sv == spec_scan(self@, to as int, attacker),
                spec_on_board(CrownfallBoardVariant::Normal, sv),
                self@.len() == 49,
                k <= scan.len,
                out@.len() == spec_captures_upto(self@, sv, k as int, attacker).len(),
                forall|j: int| 0 <= j < out@.len() ==> {
                    &&& (#[trigger] out@[j]).0 as int == spec_captures_upto(self@, sv, k as int, attacker)[j].0
                    &&& out@[j].1 == spec_captures_upto(self@, sv, k as int, attacker)[j].1
                    &&& out@[j].0 < 49
                    &&& out@[j].1.first < 49
                    &&& out@[j].1.second < 49
                },
            decreases scan.len - k,
        {
            let c = scan.get(k);
            let ghost prev = spec_captures_upto(self@, sv, k as int, attacker);
            let enemy = match self.cells[c] {
                Some(pc) => pc.player != attacker && pc.kind != PieceKind::Crown,
                None => false,
            };
            if enemy {
                match self.find_pair(c, attacker) {
                    Some(p) => {
                        out.push((c, p));
                        assert(spec_captures_upto(self@, sv, k as int + 1, attacker) == prev.push((c as int, p)));
                    },
                    None => {},
                }
            }
            k = k + 1;
        }
        out
    }

    pub fn piece_count(&self, player: PlayerKind, kind: PieceKind) -> (r: usize)
        ensures
            r == spec_piece_count(self@, player, kind),
            r <= 49,
    {
        let mut n: usize = 0;
        let mut i: usize = 0;
        while i < 49
            invariant
                self@.len() == 49,
                i <= 49,
                n <= i,
                n == spec_count(self@, player, kind, i as int),
            decreases 49 - i,
        {
            match self.cells[i] {
                Some(pc) => {
                    if pc.player == player && pc.kind == kind {
                        n = n + 1;
                    }
                },
                None => {},
            }
            i = i + 1;
        }
        n
    }

    /// One or fewer Knights and one or fewer Spies left for `player`.
    pub fn attrition_defeated(&self, player: PlayerKind) -> (r: bool)
        ensures
            r == spec_attrition_defeated(self@, player),
    {
        self.piece_count(player, PieceKind::Knight) <= 1 && self.piece_count(player, PieceKind::Spy) <= 1
    }

    /// One side has a single Knight left and the other none.
    pub fn mutual_exhaustion(&self) -> (r: bool)
        ensures
            r == spec_mutual_exhaustion(self@),
    {
        let w = self.piece_count(PlayerKind::White, PieceKind::Knight);
        let b = self.piece_count(PlayerKind::Black, PieceKind::Knight);
        (w == 0 && b == 1) || (w == 1 && b == 0)
    }
}

} // verus!
