//! Executable capture detection, each function proved equal to its spec in
//! `captures`.
use vstd::prelude::*;
use crate::engine::board::CrownfallBoardState;
use crate::engine::captures::{
    spec_attackers, spec_capture_kind, spec_capture_scan_cells, spec_check_archer_capture,
    spec_check_crown_capture, spec_check_own_crown_trap, spec_check_piece_captures,
    spec_check_self_spy_trap, spec_count_knights, spec_crown_attackers,
    spec_crown_capture_from, spec_enemy_of_kind, spec_find_attacking_pair,
    spec_find_crown_attacking_pair, spec_find_mover_pair, spec_partner_from, spec_first_ally_from, spec_first_capturing_pair,
    spec_first_pair_from, spec_first_partner, spec_has_mass_knight_arc, spec_is_knight,
    spec_is_landing_spot, spec_keep_attackers, spec_keep_not_in, spec_keep_owned,
    spec_knight_capture_shape, spec_knight_of, spec_move_candidates,
    spec_move_captures_something, spec_moved_knight_completes_pincer, spec_owned,
    spec_piece_capture_at, spec_piece_captures_upto, spec_archer_capture_at,
    spec_archer_captures_upto, ArcherCapture, ArcherList, AttackPair, CaptureKind, CaptureList,
    CellBuf, PieceCapture, spec_opt_usize, spec_has_available_capture, spec_is_step,
    spec_step_captures, spec_moved, spec_keep_empty, spec_valid_destinations, spec_preview,
    spec_cell_of, spec_capture_targets, spec_archer_targets, MoveCapturePreview,
};
use crate::engine::tables::{
    archer_range, cell_count, coord, knight_arcs, knight_diagonal_moves, knight_moves, ortho,
    spec_archer_range, spec_on_board, spec_ortho, CellList,
};
use crate::engine::types::{
    spec_cell_count, spec_x, spec_y, CrownfallBoardCell, CrownfallBoardVariant, CrownfallPiece, CrownfallPieceKind,
    CrownfallPlayerKind, CrownfallRules,
};

verus! {

impl CrownfallBoardState {
    pub fn knight_capture_shape(&self, player: CrownfallPlayerKind, index: usize, rules: CrownfallRules) -> (r: CellList)
        requires
            index < spec_cell_count(self.spec_variant()),
        ensures
            r.wf(),
            r@ == spec_knight_capture_shape(self.spec_variant(), player, index as int, rules),
            spec_on_board(self.spec_variant(), r@),
    {
        if rules.ruleset.knights_move_diagonally() {
            knight_moves(self.variant(), player, index)
        } else {
            knight_arcs(self.variant(), player, index)
        }
    }

    pub fn is_capture_landing_spot_of(&self, target: usize, attacker_cell: usize, attacker: CrownfallPlayerKind, rules: CrownfallRules) -> (r: bool)
        requires
            target < spec_cell_count(self.spec_variant()),
            attacker_cell < spec_cell_count(self.spec_variant()),
        ensures
            r == spec_is_landing_spot(self.spec_variant(), target as int, attacker_cell as int, attacker, rules),
    {
        let v = self.variant();
        let (ax, _) = coord(v, attacker_cell);
        let (tx, _) = coord(v, target);
        if ax == tx {
            return false;
        }
        self.knight_capture_shape(attacker.opposite(), target, rules).contains(attacker_cell)
    }

    /// Appends the cells of `s` holding `attacker` pieces (Knights only if
    /// `knights`, non-Knights otherwise) to `out`.
    fn keep_attackers(&self, s: &CellList, attacker: CrownfallPlayerKind, knights: bool, out: &mut CellBuf)
        requires
            s.wf(),
            spec_on_board(self.spec_variant(), s@),
            old(out).wf(),
            old(out).len + s.len <= 8,
        ensures
            final(out).wf(),
            final(out).len <= old(out).len + s.len,
            final(out)@ == old(out)@ + spec_keep_attackers(self@, s@, attacker, knights, s@.len() as int),
    {
        proof {
            self.lemma_len();
        }
        let ghost start = out@;
        let ghost start_len = out.len;
        let mut k: usize = 0;
        while k < s.len
            invariant
                s.wf(),
                spec_on_board(self.spec_variant(), s@),
                self@.len() == spec_cell_count(self.spec_variant()),
                k <= s.len,
                out.wf(),
                out.len <= start_len + k,
                start_len + s.len <= 8,
                out@ == start + spec_keep_attackers(self@, s@, attacker, knights, k as int),
            decreases s.len - k,
        {
            let c = s.get(k);
            let cell = self.get(c);
            let take = match cell {
                Some(pc) => pc.player() == attacker && (pc.kind() == CrownfallPieceKind::Knight) == knights,
                None => false,
            };
            if take {
                out.push(c);
            }
            k = k + 1;
            assert(out@ =~= start + spec_keep_attackers(self@, s@, attacker, knights, k as int));
        }
    }

    /// Appends the cells of `s` holding any `attacker` piece to `out`.
    fn keep_owned(&self, s: &CellList, attacker: CrownfallPlayerKind, out: &mut CellBuf)
        requires
            s.wf(),
            spec_on_board(self.spec_variant(), s@),
            old(out).wf(),
            old(out).len + s.len <= 8,
        ensures
            final(out).wf(),
            final(out).len <= old(out).len + s.len,
            final(out)@ == old(out)@ + spec_keep_owned(self@, s@, attacker, s@.len() as int),
    {
        proof {
            self.lemma_len();
        }
        let ghost start = out@;
        let ghost start_len = out.len;
        let mut k: usize = 0;
        while k < s.len
            invariant
                s.wf(),
                spec_on_board(self.spec_variant(), s@),
                self@.len() == spec_cell_count(self.spec_variant()),
                k <= s.len,
                out.wf(),
                out.len <= start_len + k,
                start_len + s.len <= 8,
                out@ == start + spec_keep_owned(self@, s@, attacker, k as int),
            decreases s.len - k,
        {
            let c = s.get(k);
            let take = match self.get(c) {
                Some(pc) => pc.player() == attacker,
                None => false,
            };
            if take {
                out.push(c);
            }
            k = k + 1;
            assert(out@ =~= start + spec_keep_owned(self@, s@, attacker, k as int));
        }
    }

    /// Counts the cells of `s` holding `attacker` Knights, restricted to
    /// row `row` when `use_row`.
    fn count_knights(&self, s: &CellList, attacker: CrownfallPlayerKind, use_row: bool, row: usize) -> (r: usize)
        requires
            s.wf(),
            spec_on_board(self.spec_variant(), s@),
        ensures
            r == spec_count_knights(self@, self.spec_variant(), s@, attacker, if use_row { row as int } else { -1 }, s@.len() as int),
            r <= 4,
    {
        proof {
            self.lemma_len();
        }
        let v = self.variant();
        let ghost rw: int = if use_row { row as int } else { -1 };
        let mut n: usize = 0;
        let mut k: usize = 0;
        while k < s.len
            invariant
                s.wf(),
                spec_on_board(v, s@),
                v == self.spec_variant(),
                self@.len() == spec_cell_count(v),
                k <= s.len,
                n <= k,
                rw == (if use_row { row as int } else { -1 }),
                n == spec_count_knights(self@, v, s@, attacker, rw, k as int),
            decreases s.len - k,
        {
            let c = s.get(k);
            let is_knight = match self.get(c) {
                Some(pc) => pc.player() == attacker && pc.kind() == CrownfallPieceKind::Knight,
                None => false,
            };
            let on_row = if use_row {
                let (_, cy) = coord(v, c);
                cy == row
            } else {
                true
            };
            if is_knight && on_row {
                n = n + 1;
            }
            k = k + 1;
        }
        n
    }

    pub fn has_mass_knight_arc(&self, target: usize, attacker: CrownfallPlayerKind, rules: CrownfallRules) -> (r: bool)
        requires
            target < spec_cell_count(self.spec_variant()),
        ensures
            r == spec_has_mass_knight_arc(self@, self.spec_variant(), target as int, attacker, rules),
    {
        let v = self.variant();
        let (_, ty) = coord(v, target);
        let o = ortho(v, target);
        let flank = self.count_knights(&o, attacker, true, ty);
        let shape = self.knight_capture_shape(attacker.opposite(), target, rules);
        let forward = self.count_knights(&shape, attacker, false, 0);
        flank + forward >= 3
    }

    pub fn capture_kind(&self, a: usize, b: usize) -> (r: Option<CaptureKind>)
        requires
            a < self@.len(),
            b < self@.len(),
        ensures
            r == spec_capture_kind(self@, a as int, b as int),
    {
        let pa = match self.get(a) {
            Some(p) => p,
            None => return None,
        };
        let pb = match self.get(b) {
            Some(p) => p,
            None => return None,
        };
        match (pa.kind(), pb.kind()) {
            (CrownfallPieceKind::Spy, CrownfallPieceKind::Spy) => Some(CaptureKind::Spy),
            (CrownfallPieceKind::Knight, CrownfallPieceKind::Knight) => Some(CaptureKind::Knight),
            (CrownfallPieceKind::Crown, CrownfallPieceKind::Knight) => Some(CaptureKind::Knight),
            (CrownfallPieceKind::Knight, CrownfallPieceKind::Crown) => Some(CaptureKind::Knight),
            _ => None,
        }
    }

    /// The first pair among `att`, in gathering order, forming a capture.
    pub fn first_capturing_pair(&self, att: &CellBuf) -> (r: Option<AttackPair>)
        requires
            att.wf(),
            spec_on_board(self.spec_variant(), att@),
        ensures
            r == spec_first_capturing_pair(self@, att@),
            r is Some ==> att@.contains(r.unwrap().first as int) && att@.contains(r.unwrap().second as int),
    {
        proof {
            self.lemma_len();
        }
        let n = att.len;
        let mut i: usize = 0;
        while i < n
            invariant
                att.wf(),
                n == att.len,
                spec_on_board(self.spec_variant(), att@),
                self@.len() == spec_cell_count(self.spec_variant()),
                i <= n,
                spec_first_pair_from(self@, att@, 0) == spec_first_pair_from(self@, att@, i as int),
            decreases n - i,
        {
            let mut j: usize = i + 1;
            while j < n
                invariant
                    att.wf(),
                    n == att.len,
                    spec_on_board(self.spec_variant(), att@),
                    self@.len() == spec_cell_count(self.spec_variant()),
                    i < n,
                    i + 1 <= j <= n,
                    spec_first_pair_from(self@, att@, 0) == spec_first_pair_from(self@, att@, i as int),
                    spec_first_partner(self@, att@, i as int, i + 1) == spec_first_partner(self@, att@, i as int, j as int),
                decreases n - j,
            {
                let a = att.get(i);
                let b = att.get(j);
                match self.capture_kind(a, b) {
                    Some(kind) => {
                        assert(att@[i as int] == a && att@[j as int] == b);
                        return Some(AttackPair { first: a, second: b, kind });
                    },
                    None => {},
                }
                j = j + 1;
            }
            i = i + 1;
        }
        None
    }

    /// The attackers of an ordinary capture against `target`.
    fn attackers(&self, target: usize, attacker: CrownfallPlayerKind, rules: CrownfallRules) -> (r: CellBuf)
        requires
            target < spec_cell_count(self.spec_variant()),
        ensures
            r.wf(),
            r@ == spec_attackers(self@, self.spec_variant(), target as int, attacker, rules),
            spec_on_board(self.spec_variant(), r@),
    {
        let v = self.variant();
        let o = ortho(v, target);
        let shape = self.knight_capture_shape(attacker.opposite(), target, rules);
        let mut att = CellBuf::new();
        self.keep_attackers(&o, attacker, false, &mut att);
        let ghost first = att@;
        self.keep_attackers(&shape, attacker, true, &mut att);
        assert(att@ =~= spec_attackers(self@, v, target as int, attacker, rules));
        assert(spec_on_board(v, att@)) by {
            assert forall|k: int| 0 <= k < att@.len() implies 0 <= #[trigger] att@[k] < spec_cell_count(v) by {
                lemma_keep_attackers_on_board(self@, v, o@, attacker, false, o@.len() as int);
                lemma_keep_attackers_on_board(self@, v, shape@, attacker, true, shape@.len() as int);
                if k < first.len() {
                    assert(att@[k] == first[k]);
                } else {
                    let k2 = k - first.len();
                    assert(att@[k] == spec_keep_attackers(self@, shape@, attacker, true, shape@.len() as int)[k2]);
                }
            }
        }
        att
    }

    pub fn find_attacking_pair(&self, target: usize, attacker: CrownfallPlayerKind, rules: CrownfallRules) -> (r: Option<AttackPair>)
        requires
            target < spec_cell_count(self.spec_variant()),
        ensures
            r == spec_find_attacking_pair(self@, self.spec_variant(), target as int, attacker, rules),
            r is Some ==> r.unwrap().first < spec_cell_count(self.spec_variant()) && r.unwrap().second < spec_cell_count(self.spec_variant()),
    {
        let att = self.attackers(target, attacker, rules);
        self.first_capturing_pair(&att)
    }

    /// The pincer against `target` completed by the piece just moved to `to`.
    pub fn find_mover_pair(&self, target: usize, to: usize, attacker: CrownfallPlayerKind, rules: CrownfallRules) -> (r: Option<AttackPair>)
        requires
            target < spec_cell_count(self.spec_variant()),
            to < spec_cell_count(self.spec_variant()),
        ensures
            r == spec_find_mover_pair(self@, self.spec_variant(), target as int, to as int, attacker, rules),
            r is Some ==> r.unwrap().first < spec_cell_count(self.spec_variant()) && r.unwrap().second < spec_cell_count(self.spec_variant()),
    {
        proof {
            self.lemma_len();
        }
        let att = self.attackers(target, attacker, rules);
        if !att.contains(to) {
            return None;
        }
        let n = att.len;
        let mut j: usize = 0;
        while j < n
            invariant
                att.wf(),
                n == att.len,
                spec_on_board(self.spec_variant(), att@),
                self@.len() == spec_cell_count(self.spec_variant()),
                to < spec_cell_count(self.spec_variant()),
                j <= n,
                att@ == spec_attackers(self@, self.spec_variant(), target as int, attacker, rules),
                att@.contains(to as int),
                spec_partner_from(self@, att@, to as int, 0) == spec_partner_from(self@, att@, to as int, j as int),
            decreases n - j,
        {
            let b = att.get(j);
            if b != to {
                match self.capture_kind(to, b) {
                    Some(kind) => {
                        assert(att@[j as int] == b as int);
                        assert(spec_capture_kind(self@, to as int, att@[j as int]) == Some(kind));
                        assert(spec_partner_from(self@, att@, to as int, j as int) == Some(AttackPair { first: to, second: b, kind }));
                        return Some(AttackPair { first: to, second: b, kind });
                    },
                    None => {},
                }
            }
            j = j + 1;
        }
        None
    }

    pub fn find_crown_attacking_pair(&self, target: usize, attacker: CrownfallPlayerKind, moved: usize, rules: CrownfallRules) -> (r: Option<AttackPair>)
        requires
            target < spec_cell_count(self.spec_variant()),
            moved < spec_cell_count(self.spec_variant()),
        ensures
            r == spec_find_crown_attacking_pair(self@, self.spec_variant(), target as int, attacker, moved as int, rules),
            r is Some ==> r.unwrap().first < spec_cell_count(self.spec_variant()) && r.unwrap().second < spec_cell_count(self.spec_variant()),
    {
        proof {
            self.lemma_len();
        }
        let v = self.variant();
        let o = ortho(v, target);
        let mut att = CellBuf::new();
        self.keep_owned(&o, attacker, &mut att);
        proof {
            lemma_keep_owned_on_board(self@, v, o@, attacker, o@.len() as int);
            assert(att@ =~= spec_keep_owned(self@, o@, attacker, o@.len() as int));
        }
        let moved_is_knight = match self.get(moved) {
            Some(pc) => pc.player() == attacker && pc.kind() == CrownfallPieceKind::Knight,
            None => false,
        };
        if self.is_capture_landing_spot_of(target, moved, attacker, rules) && moved_is_knight {
            att.push(moved);
        }
        assert(att@ =~= spec_crown_attackers(self@, v, target as int, attacker, moved as int, rules));
        self.first_capturing_pair(&att)
    }

    /// The attacker's piece other than `moved` in a pair.
    pub fn other_attacker(pair: AttackPair, moved: usize) -> (r: usize)
        ensures
            r == (if pair.first == moved { pair.second } else { pair.first }),
    {
        if pair.first == moved {
            pair.second
        } else {
            pair.first
        }
    }

    pub fn check_self_spy_trap(&self, at: usize, mover: CrownfallPlayerKind, rules: CrownfallRules) -> (r: bool)
        requires
            at < spec_cell_count(self.spec_variant()),
        ensures
            r == spec_check_self_spy_trap(self@, self.spec_variant(), at as int, mover, rules),
    {
        proof {
            self.lemma_len();
        }
        match self.get(at) {
            Some(pc) => {
                if pc.player() == mover && pc.kind() != CrownfallPieceKind::Crown {
                    match self.find_attacking_pair(at, mover.opposite(), rules) {
                        Some(pair) => pair.kind == CaptureKind::Spy,
                        None => false,
                    }
                } else {
                    false
                }
            },
            None => false,
        }
    }

    pub fn check_own_crown_trap(&self, at: usize, mover: CrownfallPlayerKind, rules: CrownfallRules) -> (r: bool)
        requires
            at < spec_cell_count(self.spec_variant()),
        ensures
            r == spec_check_own_crown_trap(self@, self.spec_variant(), at as int, mover, rules),
    {
        proof {
            self.lemma_len();
        }
        match self.get(at) {
            Some(pc) => {
                if pc.player() == mover && pc.kind() == CrownfallPieceKind::Crown {
                    self.find_crown_attacking_pair(at, mover.opposite(), at, rules).is_some()
                } else {
                    false
                }
            },
            None => false,
        }
    }

    pub fn capture_scan_cells(&self, to: usize, mover: CrownfallPlayerKind, rules: CrownfallRules) -> (r: CellBuf)
        requires
            to < spec_cell_count(self.spec_variant()),
        ensures
            r.wf(),
            r@ == spec_capture_scan_cells(self@, self.spec_variant(), to as int, mover, rules),
            spec_on_board(self.spec_variant(), r@),
    {
        proof {
            self.lemma_len();
        }
        let v = self.variant();
        let o = ortho(v, to);
        let mut cells = CellBuf::new();
        let mut k: usize = 0;
        while k < o.len
            invariant
                o.wf(),
                k <= o.len,
                cells.wf(),
                cells.len == k,
                cells@ =~= o@.take(k as int),
            decreases o.len - k,
        {
            cells.push(o.get(k));
            k = k + 1;
            assert(cells@ =~= o@.take(k as int));
        }
        assert(cells@ =~= o@);
        let is_knight = match self.get(to) {
            Some(pc) => pc.kind() == CrownfallPieceKind::Knight,
            None => false,
        };
        if is_knight {
            let shape = self.knight_capture_shape(mover, to, rules);
            let ghost sv = shape@;
            let mut m: usize = 0;
            while m < shape.len
                invariant
                    shape.wf(),
                    sv == shape@,
                    o.wf(),
                    m <= shape.len,
                    cells.wf(),
                    cells.len <= o.len + m,
                    cells@ == o@ + spec_keep_not_in(sv, o@, m as int),
                decreases shape.len - m,
            {
                let c = shape.get(m);
                if !o.contains(c) {
                    cells.push(c);
                }
                m = m + 1;
                assert(cells@ =~= o@ + spec_keep_not_in(sv, o@, m as int));
            }
            proof {
                lemma_keep_not_in_on_board(v, sv, o@, sv.len() as int);
                assert forall|j: int| 0 <= j < cells@.len() implies 0 <= #[trigger] cells@[j] < spec_cell_count(v) by {
                    if j < o@.len() {
                        assert(cells@[j] == o@[j]);
                    } else {
                        assert(cells@[j] == spec_keep_not_in(sv, o@, sv.len() as int)[j - o@.len()]);
                    }
                }
            }
        }
        cells
    }

    pub fn moved_knight_completes_pincer(&self, to: usize, target: usize, attacker: CrownfallPlayerKind, rules: CrownfallRules) -> (r: bool)
        requires
            to < spec_cell_count(self.spec_variant()),
            target < spec_cell_count(self.spec_variant()),
        ensures
            r == spec_moved_knight_completes_pincer(self@, self.spec_variant(), to as int, target as int, attacker, rules),
    {
        proof {
            self.lemma_len();
        }
        match self.get(to) {
            Some(pc) => {
                if pc.kind() == CrownfallPieceKind::Knight {
                    self.is_capture_landing_spot_of(target, to, attacker, rules)
                } else {
                    pc.kind() != CrownfallPieceKind::Crown
                }
            },
            None => true,
        }
    }

    /// The enemy Crown the move to `to` captures, if any.
    pub fn check_crown_capture(&self, to: usize, attacker: CrownfallPlayerKind, rules: CrownfallRules) -> (r: Option<usize>)
        requires
            to < spec_cell_count(self.spec_variant()),
        ensures
            r == spec_opt_usize(spec_check_crown_capture(self@, self.spec_variant(), to as int, attacker, rules)),
            r is Some ==> r.unwrap() < spec_cell_count(self.spec_variant()),
            r is Some <==> spec_check_crown_capture(self@, self.spec_variant(), to as int, attacker, rules) is Some,
            r is Some ==> spec_check_crown_capture(self@, self.spec_variant(), to as int, attacker, rules).unwrap() == r.unwrap() as int,
    {
        proof {
            self.lemma_len();
        }
        let v = self.variant();
        let scan = self.capture_scan_cells(to, attacker, rules);
        let ghost sv = scan@;
        let mut k: usize = 0;
        while k < scan.len
            invariant
                scan.wf(),
                sv == scan@,
                sv == spec_capture_scan_cells(self@, v, to as int, attacker, rules),
                spec_on_board(v, sv),
                v == self.spec_variant(),
                self@.len() == spec_cell_count(v),
                to < spec_cell_count(v),
                k <= scan.len,
                spec_crown_capture_from(self@, v, sv, 0, to as int, attacker, rules)
                    == spec_crown_capture_from(self@, v, sv, k as int, to as int, attacker, rules),
            decreases scan.len - k,
        {
            let c = scan.get(k);
            let enemy_crown = match self.get(c) {
                Some(pc) => pc.player() != attacker && pc.kind() == CrownfallPieceKind::Crown,
                None => false,
            };
            if enemy_crown && self.find_crown_attacking_pair(c, attacker, to, rules).is_some() {
                assert(spec_enemy_of_kind(self@[c as int], attacker, true));
                assert(spec_crown_capture_from(self@, v, sv, k as int, to as int, attacker, rules) == Some(c as int));
                return Some(c);
            }
            k = k + 1;
        }
        None
    }

    fn piece_capture_at(&self, c: usize, to: usize, attacker: CrownfallPlayerKind, rules: CrownfallRules) -> (r: Option<PieceCapture>)
        requires
            c < spec_cell_count(self.spec_variant()),
            to < spec_cell_count(self.spec_variant()),
        ensures
            r == spec_piece_capture_at(self@, self.spec_variant(), c as int, to as int, attacker, rules),
            r is Some ==> r.unwrap().target == c && r.unwrap().pair.first < spec_cell_count(self.spec_variant())
                && r.unwrap().pair.second < spec_cell_count(self.spec_variant()),
    {
        proof {
            self.lemma_len();
        }
        let enemy = match self.get(c) {
            Some(pc) => pc.player() != attacker && pc.kind() != CrownfallPieceKind::Crown,
            None => false,
        };
        if !enemy {
            return None;
        }
        // The cheap landing-spot check first; the pair search is the
        // expensive part.
        if !self.moved_knight_completes_pincer(to, c, attacker, rules) {
            return None;
        }
        match self.find_mover_pair(c, to, attacker, rules) {
            Some(pair) => Some(PieceCapture { target: c, pair }),
            None => None,
        }
    }

    /// Every ordinary capture the move to `to` completes, in scan order.
    pub fn check_piece_captures(&self, to: usize, attacker: CrownfallPlayerKind, rules: CrownfallRules) -> (r: CaptureList)
        requires
            to < spec_cell_count(self.spec_variant()),
        ensures
            r.len <= 8,
            r@ == spec_check_piece_captures(self@, self.spec_variant(), to as int, attacker, rules),
            forall|k: int| 0 <= k < r@.len() ==> (#[trigger] r@[k]).target < spec_cell_count(self.spec_variant())
                && r@[k].pair.first < spec_cell_count(self.spec_variant()) && r@[k].pair.second < spec_cell_count(self.spec_variant()),
    {
        let v = self.variant();
        let scan = self.capture_scan_cells(to, attacker, rules);
        let ghost sv = scan@;
        let blank = PieceCapture {
            target: 0,
            pair: AttackPair { first: 0, second: 0, kind: CaptureKind::Spy },
        };
        let mut out = CaptureList { items: [blank; 8], len: 0 };
        let mut k: usize = 0;
        while k < scan.len
            invariant
                scan.wf(),
                sv == scan@,
                spec_on_board(v, sv),
                v == self.spec_variant(),
                to < spec_cell_count(v),
                k <= scan.len,
                out.len <= k,
                out@ == spec_piece_captures_upto(self@, v, sv, k as int, to as int, attacker, rules),
                forall|j: int| 0 <= j < out@.len() ==> (#[trigger] out@[j]).target < spec_cell_count(v)
                    && out@[j].pair.first < spec_cell_count(v) && out@[j].pair.second < spec_cell_count(v),
            decreases scan.len - k,
        {
            let c = scan.get(k);
            let ghost before = out@;
            match self.piece_capture_at(c, to, attacker, rules) {
                Some(pc) => {
                    out.items[out.len] = pc;
                    out.len = out.len + 1;
                    assert(out@ =~= before.push(pc));
                },
                None => {},
            }
            k = k + 1;
        }
        out
    }

    /// The first allied non-Archer orthogonally beside `target`.
    fn first_ally(&self, target: usize, attacker: CrownfallPlayerKind) -> (r: Option<usize>)
        requires
            target < spec_cell_count(self.spec_variant()),
        ensures
            r == spec_opt_usize(spec_first_ally_from(self@, spec_ortho(self.spec_variant(), target as int), 0, attacker)),
            r is Some ==> r.unwrap() < spec_cell_count(self.spec_variant()),
    {
        proof {
            self.lemma_len();
        }
        let v = self.variant();
        let o = ortho(v, target);
        let ghost ov = o@;
        let mut k: usize = 0;
        while k < o.len
            invariant
                o.wf(),
                ov == o@,
                ov == spec_ortho(v, target as int),
                spec_on_board(v, ov),
                v == self.spec_variant(),
                self@.len() == spec_cell_count(v),
                k <= o.len,
                spec_first_ally_from(self@, ov, 0, attacker) == spec_first_ally_from(self@, ov, k as int, attacker),
            decreases o.len - k,
        {
            let n = o.get(k);
            let ok = match self.get(n) {
                Some(q) => q.player() == attacker && q.kind() != CrownfallPieceKind::Archer,
                None => false,
            };
            if ok {
                assert(spec_owned(self@[n as int], attacker));
                assert(spec_first_ally_from(self@, ov, k as int, attacker) == Some(n as int));
                return Some(n);
            }
            k = k + 1;
        }
        None
    }

    /// The Archer's ranged capture from `to`.
    pub fn check_archer_capture(&self, to: usize, attacker: CrownfallPlayerKind) -> (r: ArcherList)
        requires
            to < spec_cell_count(self.spec_variant()),
        ensures
            r.len <= 4,
            r@ == spec_check_archer_capture(self@, self.spec_variant(), to as int, attacker),
            forall|k: int| 0 <= k < r@.len() ==> (#[trigger] r@[k]).target < spec_cell_count(self.spec_variant())
                && r@[k].ally < spec_cell_count(self.spec_variant()),
    {
        proof {
            self.lemma_len();
        }
        let v = self.variant();
        let range = archer_range(v, to);
        let ghost rv = range@;
        let blank = ArcherCapture { target: 0, ally: 0 };
        let mut out = ArcherList { items: [blank; 4], len: 0 };
        let mut k: usize = 0;
        while k < range.len
            invariant
                range.wf(),
                rv == range@,
                rv == spec_archer_range(v, to as int),
                spec_on_board(v, rv),
                v == self.spec_variant(),
                self@.len() == spec_cell_count(v),
                k <= range.len,
                out.len <= k,
                out@ == spec_archer_captures_upto(self@, v, rv, k as int, attacker),
                forall|j: int| 0 <= j < out@.len() ==> (#[trigger] out@[j]).target < spec_cell_count(v)
                    && out@[j].ally < spec_cell_count(v),
            decreases range.len - k,
        {
            let c = range.get(k);
            let ghost before = out@;
            let enemy = match self.get(c) {
                Some(pc) => pc.player() != attacker && pc.kind() != CrownfallPieceKind::Crown,
                None => false,
            };
            if enemy {
                match self.first_ally(c, attacker) {
                    Some(ally) => {
                        let ac = ArcherCapture { target: c, ally };
                        out.items[out.len] = ac;
                        out.len = out.len + 1;
                        assert(out@ =~= before.push(ac));
                    },
                    None => {},
                }
            }
            k = k + 1;
        }
        out
    }

    /// True if the piece just moved to `to` captured at least one enemy.
    pub fn move_captures_something(&self, to: usize, player: CrownfallPlayerKind, kind: CrownfallPieceKind, rules: CrownfallRules) -> (r: bool)
        requires
            to < spec_cell_count(self.spec_variant()),
        ensures
            r == spec_move_captures_something(self@, self.spec_variant(), to as int, player, kind, rules),
    {
        if self.check_crown_capture(to, player, rules).is_some() {
            return true;
        }
        if self.check_piece_captures(to, player, rules).len > 0 {
            return true;
        }
        if kind == CrownfallPieceKind::Archer && self.check_archer_capture(to, player).len > 0 {
            return true;
        }
        false
    }

    /// Move-candidate cells for the piece at `cell`, ignoring occupancy.
    pub fn move_candidates(&self, cell: usize, rules: CrownfallRules) -> (r: CellList)
        requires
            cell < spec_cell_count(self.spec_variant()),
        ensures
            r.wf(),
            r@ == spec_move_candidates(self@, self.spec_variant(), cell as int, rules),
            spec_on_board(self.spec_variant(), r@),
    {
        proof {
            self.lemma_len();
        }
        let v = self.variant();
        match self.get(cell) {
            Some(pc) => {
                if pc.kind() == CrownfallPieceKind::Knight {
                    if rules.ruleset.knights_move_diagonally() {
                        knight_diagonal_moves(v, pc.player(), cell)
                    } else {
                        knight_moves(v, pc.player(), cell)
                    }
                } else {
                    ortho(v, cell)
                }
            },
            None => CellList::empty(),
        }
    }
}

proof fn lemma_keep_attackers_on_board(cells: Seq<Option<CrownfallPiece>>, v: CrownfallBoardVariant, s: Seq<int>, attacker: CrownfallPlayerKind, knights: bool, n: int)
    requires
        spec_on_board(v, s),
        n <= s.len(),
    ensures
        spec_on_board(v, spec_keep_attackers(cells, s, attacker, knights, n)),
    decreases n,
{
    if n > 0 {
        lemma_keep_attackers_on_board(cells, v, s, attacker, knights, n - 1);
    }
}

proof fn lemma_keep_owned_on_board(cells: Seq<Option<CrownfallPiece>>, v: CrownfallBoardVariant, s: Seq<int>, attacker: CrownfallPlayerKind, n: int)
    requires
        spec_on_board(v, s),
        n <= s.len(),
    ensures
        spec_on_board(v, spec_keep_owned(cells, s, attacker, n)),
    decreases n,
{
    if n > 0 {
        lemma_keep_owned_on_board(cells, v, s, attacker, n - 1);
    }
}

proof fn lemma_keep_not_in_on_board(v: CrownfallBoardVariant, s: Seq<int>, o: Seq<int>, n: int)
    requires
        spec_on_board(v, s),
        n <= s.len(),
    ensures
        spec_on_board(v, spec_keep_not_in(s, o, n)),
    decreases n,
{
    if n > 0 {
        lemma_keep_not_in_on_board(v, s, o, n - 1);
    }
}

} // verus!

verus! {

impl CrownfallBoardState {
    /// True if `player` has at least one legal step that captures an enemy
    /// piece (crown capture, ordinary capture, or an Archer's shot); a step
    /// into a trap of the opponent's does not count.
    pub fn has_available_capture(&self, player: CrownfallPlayerKind, rules: CrownfallRules) -> (r: bool)
        ensures
            r == spec_has_available_capture(self@, self.spec_variant(), player, rules),
    {
        proof {
            self.lemma_len();
        }
        let v = self.variant();
        let n = cell_count(v);
        // One board copy for the whole scan: each candidate step is played as
        // two cell writes and undone the same way.
        let mut scratch = *self;
        let mut index: usize = 0;
        while index < n
            invariant
                v == self.spec_variant(),
                n == spec_cell_count(v),
                self@.len() == n,
                scratch@ == self@,
                scratch.spec_variant() == v,
                index <= n,
                forall|i: int, d: int|
                    0 <= i < index && #[trigger] spec_is_step(self@, v, i, d, rules) && spec_owned(self@[i], player)
                        ==> !spec_step_captures(self@, v, i, d, player, rules),
            decreases n - index,
        {
            match self.get(index) {
                Some(piece) => {
                    if piece.player() == player {
                        let cands = self.move_candidates(index, rules);
                        let ghost cv = cands@;
                        let mut k: usize = 0;
                        while k < cands.len
                            invariant
                                v == self.spec_variant(),
                                n == spec_cell_count(v),
                                self@.len() == n,
                                scratch@ == self@,
                                scratch.spec_variant() == v,
                                index < n,
                                self@[index as int] == Some(piece),
                                piece.spec_player() == player,
                                cands.wf(),
                                cv == cands@,
                                cv == spec_move_candidates(self@, v, index as int, rules),
                                spec_on_board(v, cv),
                                k <= cands.len,
                                forall|kk: int|
                                    0 <= kk < k && self@[#[trigger] cv[kk]].is_none()
                                        ==> !spec_step_captures(self@, v, index as int, cv[kk], player, rules),
                            decreases cands.len - k,
                        {
                            let d = cands.get(k);
                            if self.get(d).is_none() {
                                scratch.set(index, None);
                                scratch.set(d, Some(piece));
                                assert(scratch@ == spec_moved(self@, index as int, d as int, piece));
                                let c = scratch.move_captures_something(d, player, piece.kind(), rules);
                                scratch.set(d, None);
                                scratch.set(index, Some(piece));
                                assert(scratch@ =~= self@);
                                if c {
                                    assert(cv[k as int] == d);
                                    assert(spec_is_step(self@, v, index as int, d as int, rules));
                                    assert(spec_move_candidates(self@, v, index as int, rules).contains(d as int));
                                    return true;
                                }
                            }
                            k = k + 1;
                        }
                        assert forall|i: int, d: int|
                            0 <= i < index + 1 && #[trigger] spec_is_step(self@, v, i, d, rules) && spec_owned(self@[i], player)
                                implies !spec_step_captures(self@, v, i, d, player, rules) by {
                            if i == index {
                                let kk = choose|kk: int| 0 <= kk < cv.len() && cv[kk] == d;
                                assert(self@[cv[kk]].is_none());
                            }
                        }
                    }
                },
                None => {},
            }
            index = index + 1;
        }
        assert(!spec_has_available_capture(self@, v, player, rules)) by {
            assert forall|from: int, to: int|
                #[trigger] spec_move_candidates(self@, v, from, rules).contains(to) implies !(spec_is_step(self@, v, from, to, rules) && spec_owned(self@[from], player)
                    && spec_move_captures_something(
                    spec_moved(self@, from, to, self@[from].unwrap()),
                    v,
                    to,
                    player,
                    self@[from].unwrap().spec_kind(),
                    rules,
                )) by {
                if spec_is_step(self@, v, from, to, rules) && spec_owned(self@[from], player) {
                    assert(!spec_step_captures(self@, v, from, to, player, rules));
                }
            }
        }
        false
    }

    /// Legal move destinations for the piece at `cell`: its candidates that
    /// are empty, in candidate order.
    pub fn get_valid_destinations_for(&self, cell: CrownfallBoardCell, rules: CrownfallRules) -> (r: Vec<CrownfallBoardCell>)
        requires
            cell.index < spec_cell_count(self.spec_variant()),
        ensures
            r@ == spec_valid_destinations(self@, self.spec_variant(), cell.index as int, rules),
    {
        proof {
            self.lemma_len();
        }
        let v = self.variant();
        let cands = self.move_candidates(cell.to_index(), rules);
        let ghost cv = cands@;
        let mut out: Vec<CrownfallBoardCell> = Vec::new();
        let mut k: usize = 0;
        while k < cands.len
            invariant
                cands.wf(),
                cv == cands@,
                spec_on_board(v, cv),
                v == self.spec_variant(),
                self@.len() == spec_cell_count(v),
                k <= cands.len,
                out@ == spec_keep_empty(self@, cv, k as int),
            decreases cands.len - k,
        {
            let d = cands.get(k);
            if self.get(d).is_none() {
                out.push(CrownfallBoardCell::new_index(d));
            }
            k = k + 1;
        }
        out
    }

    /// Previews what the move `from -> to` would capture without applying
    /// it: `None` if there is no piece at `from` or `to` is not a legal
    /// destination for it (the whole-turn mandatory-capture rule is not
    /// consulted).
    pub fn preview_move_captures(&self, from: CrownfallBoardCell, to: CrownfallBoardCell, rules: CrownfallRules) -> (r: Option<MoveCapturePreview>)
        requires
            from.index < spec_cell_count(self.spec_variant()),
            to.index < spec_cell_count(self.spec_variant()),
        ensures
            match spec_preview(self@, self.spec_variant(), from.index as int, to.index as int, rules) {
                None => r is None,
                Some((captured, mover)) => r is Some && r.unwrap().captured@ == captured && r.unwrap().mover_captured == mover,
            },
    {
        proof {
            self.lemma_len();
        }
        let v = self.variant();
        let from_index = from.to_index();
        let to_index = to.to_index();
        let piece = match self.get(from_index) {
            Some(p) => p,
            None => return None,
        };
        if self.get(to_index).is_some() || !self.move_candidates(from_index, rules).contains(to_index) {
            return None;
        }
        let player = piece.player();
        let mut scratch = *self;
        scratch.set(from_index, None);
        scratch.set(to_index, Some(piece));
        let ghost s = scratch@;
        assert(s == spec_moved(self@, from_index as int, to_index as int, piece));
        if scratch.check_own_crown_trap(to_index, player, rules) {
            return Some(MoveCapturePreview { captured: Vec::new(), mover_captured: true });
        }
        let acp = rules.ruleset.all_captures_processed();
        let mut preview = MoveCapturePreview::default();
        let crown = scratch.check_crown_capture(to_index, player, rules);
        match crown {
            Some(c) => {
                preview.captured.push(CrownfallBoardCell::new_index(c));
                assert(preview.captured@ =~= seq![spec_cell_of(c as int)]);
                if !acp {
                    return Some(preview);
                }
            },
            None => {},
        }
        let ghost c1 = preview.captured@;
        assert(c1 == match spec_check_crown_capture(s, v, to_index as int, player, rules) {
            Some(c) => seq![spec_cell_of(c)],
            None => Seq::<CrownfallBoardCell>::empty(),
        });
        let trapped = scratch.check_self_spy_trap(to_index, player, rules);
        if trapped {
            preview.mover_captured = true;
            if !acp {
                return Some(preview);
            }
        }
        let pcs = scratch.check_piece_captures(to_index, player, rules);
        let mut k: usize = 0;
        while k < pcs.len
            invariant
                pcs.len <= 8,
                k <= pcs.len,
                forall|j: int| 0 <= j < pcs@.len() ==> (#[trigger] pcs@[j]).target < 81,
                preview.captured@ == c1 + spec_capture_targets(pcs@.take(k as int)),
                preview.mover_captured == trapped,
            decreases pcs.len - k,
        {
            let target = pcs.items[k].target;
            assert(pcs@[k as int].target == target);
            preview.captured.push(CrownfallBoardCell::new_index(target));
            k = k + 1;
            assert(pcs@.take(k as int) =~= pcs@.take(k - 1).push(pcs@[k - 1]));
            assert(preview.captured@ =~= c1 + spec_capture_targets(pcs@.take(k as int)));
        }
        assert(pcs@.take(pcs.len as int) =~= pcs@);
        let ghost c2 = preview.captured@;
        if pcs.len > 0 && !acp {
            return Some(preview);
        }
        if piece.kind() == CrownfallPieceKind::Archer {
            let acs = scratch.check_archer_capture(to_index, player);
            let mut m: usize = 0;
            while m < acs.len
                invariant
                    acs.len <= 4,
                    m <= acs.len,
                    forall|j: int| 0 <= j < acs@.len() ==> (#[trigger] acs@[j]).target < 81,
                    preview.captured@ == c2 + spec_archer_targets(acs@.take(m as int)),
                    preview.mover_captured == trapped,
                decreases acs.len - m,
            {
                let target = acs.items[m].target;
                assert(acs@[m as int].target == target);
                preview.captured.push(CrownfallBoardCell::new_index(target));
                m = m + 1;
                assert(acs@.take(m as int) =~= acs@.take(m - 1).push(acs@[m - 1]));
                assert(preview.captured@ =~= c2 + spec_archer_targets(acs@.take(m as int)));
            }
            assert(acs@.take(acs.len as int) =~= acs@);
        }
        Some(preview)
    }
}

} // verus!
