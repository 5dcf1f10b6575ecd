//! The starting layouts. Every layout is mirror-symmetric: Black's two home
//! rows (the Crown's back row, then the front row) sit at the top of the
//! board, and White's identical rows at the bottom.
use vstd::prelude::*;
use crate::engine::board::CrownfallBoardState;
use crate::engine::types::{
    spec_board_length, spec_cell_count, spec_x, spec_y, CrownfallBoardVariant, CrownfallPiece,
    CrownfallPieceKind, CrownfallPlayerKind,
};

verus! {

broadcast use CrownfallPiece::lemma_spec_new;

/// The piece kind at column `x` of a home row (`row` 0 is the back row
/// holding the Crown, 1 the row in front of it).
pub open spec fn spec_home_row(board: CrownfallBoardVariant, archers: bool, row: int, x: int) -> Option<CrownfallPieceKind> {
    match (board, archers) {
        (CrownfallBoardVariant::Mini, false) => if row == 0 {
            if x == 2 {
                Some(CrownfallPieceKind::Crown)
            } else if x == 1 || x == 3 {
                Some(CrownfallPieceKind::Spy)
            } else {
                None
            }
        } else if 1 <= x <= 3 {
            Some(CrownfallPieceKind::Knight)
        } else {
            None
        },
        (CrownfallBoardVariant::Mini, true) => if row == 0 {
            if x == 2 { Some(CrownfallPieceKind::Crown) } else { Some(CrownfallPieceKind::Archer) }
        } else if x == 2 {
            Some(CrownfallPieceKind::Spy)
        } else {
            None
        },
        (CrownfallBoardVariant::Normal, false) => if row == 0 {
            if x == 3 {
                Some(CrownfallPieceKind::Crown)
            } else if x == 2 || x == 4 {
                Some(CrownfallPieceKind::Spy)
            } else {
                None
            }
        } else if x == 3 {
            Some(CrownfallPieceKind::Spy)
        } else {
            Some(CrownfallPieceKind::Knight)
        },
        (CrownfallBoardVariant::Normal, true) => if row == 0 {
            if x == 3 { Some(CrownfallPieceKind::Crown) } else { Some(CrownfallPieceKind::Archer) }
        } else if x == 3 {
            Some(CrownfallPieceKind::Spy)
        } else if x == 2 || x == 4 {
            Some(CrownfallPieceKind::Archer)
        } else {
            None
        },
        (CrownfallBoardVariant::Grand, false) => if row == 0 {
            if x == 4 {
                Some(CrownfallPieceKind::Crown)
            } else if x == 3 || x == 5 {
                Some(CrownfallPieceKind::Spy)
            } else if x == 2 || x == 6 {
                Some(CrownfallPieceKind::Archer)
            } else {
                None
            }
        } else if x == 4 {
            Some(CrownfallPieceKind::Spy)
        } else {
            Some(CrownfallPieceKind::Knight)
        },
        (CrownfallBoardVariant::Grand, true) => if row == 0 {
            if x == 4 { Some(CrownfallPieceKind::Crown) } else { Some(CrownfallPieceKind::Archer) }
        } else if x == 4 {
            Some(CrownfallPieceKind::Spy)
        } else if 2 <= x <= 6 {
            Some(CrownfallPieceKind::Archer)
        } else {
            None
        },
    }
}

pub open spec fn spec_owned(kind: Option<CrownfallPieceKind>, player: CrownfallPlayerKind) -> Option<CrownfallPiece> {
    match kind {
        Some(k) => Some(CrownfallPiece::spec_new(k, player)),
        None => None,
    }
}

/// The starting content of cell `i`: Black's home rows are rows 0 and 1,
/// White's are the mirrored last two rows, everything between is empty.
pub open spec fn spec_layout_cell(board: CrownfallBoardVariant, archers: bool, i: int) -> Option<CrownfallPiece> {
    let len = spec_board_length(board);
    let x = spec_x(board, i);
    let y = spec_y(board, i);
    if y <= 1 {
        spec_owned(spec_home_row(board, archers, y, x), CrownfallPlayerKind::Black)
    } else if y >= len - 2 {
        spec_owned(spec_home_row(board, archers, len - 1 - y, x), CrownfallPlayerKind::White)
    } else {
        None
    }
}

/// The whole starting board.
pub open spec fn spec_layout(board: CrownfallBoardVariant, archers: bool) -> Seq<Option<CrownfallPiece>> {
    Seq::new(spec_cell_count(board) as nat, |i: int| spec_layout_cell(board, archers, i))
}

fn home_row(board: CrownfallBoardVariant, archers: bool, row: usize, x: usize) -> (r: Option<CrownfallPieceKind>)
    ensures
        r == spec_home_row(board, archers, row as int, x as int),
{
    match (board, archers) {
        (CrownfallBoardVariant::Mini, false) => if row == 0 {
            if x == 2 {
                Some(CrownfallPieceKind::Crown)
            } else if x == 1 || x == 3 {
                Some(CrownfallPieceKind::Spy)
            } else {
                None
            }
        } else if 1 <= x && x <= 3 {
            Some(CrownfallPieceKind::Knight)
        } else {
            None
        },
        (CrownfallBoardVariant::Mini, true) => if row == 0 {
            if x == 2 { Some(CrownfallPieceKind::Crown) } else { Some(CrownfallPieceKind::Archer) }
        } else if x == 2 {
            Some(CrownfallPieceKind::Spy)
        } else {
            None
        },
        (CrownfallBoardVariant::Normal, false) => if row == 0 {
            if x == 3 {
                Some(CrownfallPieceKind::Crown)
            } else if x == 2 || x == 4 {
                Some(CrownfallPieceKind::Spy)
            } else {
                None
            }
        } else if x == 3 {
            Some(CrownfallPieceKind::Spy)
        } else {
            Some(CrownfallPieceKind::Knight)
        },
        (CrownfallBoardVariant::Normal, true) => if row == 0 {
            if x == 3 { Some(CrownfallPieceKind::Crown) } else { Some(CrownfallPieceKind::Archer) }
        } else if x == 3 {
            Some(CrownfallPieceKind::Spy)
        } else if x == 2 || x == 4 {
            Some(CrownfallPieceKind::Archer)
        } else {
            None
        },
        (CrownfallBoardVariant::Grand, false) => if row == 0 {
            if x == 4 {
                Some(CrownfallPieceKind::Crown)
            } else if x == 3 || x == 5 {
                Some(CrownfallPieceKind::Spy)
            } else if x == 2 || x == 6 {
                Some(CrownfallPieceKind::Archer)
            } else {
                None
            }
        } else if x == 4 {
            Some(CrownfallPieceKind::Spy)
        } else {
            Some(CrownfallPieceKind::Knight)
        },
        (CrownfallBoardVariant::Grand, true) => if row == 0 {
            if x == 4 { Some(CrownfallPieceKind::Crown) } else { Some(CrownfallPieceKind::Archer) }
        } else if x == 4 {
            Some(CrownfallPieceKind::Spy)
        } else if 2 <= x && x <= 6 {
            Some(CrownfallPieceKind::Archer)
        } else {
            None
        },
    }
}

fn owned(kind: Option<CrownfallPieceKind>, player: CrownfallPlayerKind) -> (r: Option<CrownfallPiece>)
    ensures
        r == spec_owned(kind, player),
{
    match kind {
        Some(k) => Some(CrownfallPiece::new(k, player)),
        None => None,
    }
}

fn layout_cell(board: CrownfallBoardVariant, archers: bool, i: usize) -> (r: Option<CrownfallPiece>)
    requires
        i < spec_cell_count(board),
    ensures
        r == spec_layout_cell(board, archers, i as int),
{
    let len = board.length();
    let x = i % len;
    let y = i / len;
    proof {
        assert(x == spec_x(board, i as int));
        assert(y == spec_y(board, i as int));
    }
    if y <= 1 {
        owned(home_row(board, archers, y, x), CrownfallPlayerKind::Black)
    } else if y >= len - 2 {
        owned(home_row(board, archers, len - 1 - y, x), CrownfallPlayerKind::White)
    } else {
        None
    }
}

/// Fills a board of the given size with its starting layout.
fn build_layout(board: CrownfallBoardVariant, archers: bool) -> (r: CrownfallBoardState)
    ensures
        r.spec_variant() == board,
        r@ == spec_layout(board, archers),
{
    let mut state = CrownfallBoardState::empty(board);
    let cc = crate::engine::tables::cell_count(board);
    let mut i: usize = 0;
    while i < cc
        invariant
            cc == spec_cell_count(board),
            i <= cc,
            state.spec_variant() == board,
            state@.len() == cc,
            forall|j: int| 0 <= j < i ==> #[trigger] state@[j] == spec_layout_cell(board, archers, j),
        decreases cc - i,
    {
        let cell = layout_cell(board, archers, i);
        state.set(i, cell);
        i = i + 1;
    }
    assert(state@ =~= spec_layout(board, archers));
    state
}

/// The Standard (7x7) starting layout: 6 Knights and 1 Spy in a single row
/// in front of each Crown, flanked by two more Spies.
pub fn standard_layout() -> (r: CrownfallBoardState)
    ensures
        r.spec_variant() == CrownfallBoardVariant::Normal,
        r@ == spec_layout(CrownfallBoardVariant::Normal, false),
{
    build_layout(CrownfallBoardVariant::Normal, false)
}

/// The Standard board under the Archers ruleset: Archers in place of the
/// Knights and the flanking Spies.
pub fn standard_archers_layout() -> (r: CrownfallBoardState)
    ensures
        r.spec_variant() == CrownfallBoardVariant::Normal,
        r@ == spec_layout(CrownfallBoardVariant::Normal, true),
{
    build_layout(CrownfallBoardVariant::Normal, true)
}

/// The Mini (5x5) starting layout: 3 Knights in a single row in front of
/// each Crown, which is flanked by two Spies.
pub fn mini_layout() -> (r: CrownfallBoardState)
    ensures
        r.spec_variant() == CrownfallBoardVariant::Mini,
        r@ == spec_layout(CrownfallBoardVariant::Mini, false),
{
    build_layout(CrownfallBoardVariant::Mini, false)
}

pub fn mini_archers_layout() -> (r: CrownfallBoardState)
    ensures
        r.spec_variant() == CrownfallBoardVariant::Mini,
        r@ == spec_layout(CrownfallBoardVariant::Mini, true),
{
    build_layout(CrownfallBoardVariant::Mini, true)
}

/// The Grand (9x9) starting layout: 8 Knights and 1 Spy in a single row in
/// front of each Crown, flanked by 2 Spies and 2 Archers.
pub fn grand_layout() -> (r: CrownfallBoardState)
    ensures
        r.spec_variant() == CrownfallBoardVariant::Grand,
        r@ == spec_layout(CrownfallBoardVariant::Grand, false),
{
    build_layout(CrownfallBoardVariant::Grand, false)
}

pub fn grand_archers_layout() -> (r: CrownfallBoardState)
    ensures
        r.spec_variant() == CrownfallBoardVariant::Grand,
        r@ == spec_layout(CrownfallBoardVariant::Grand, true),
{
    build_layout(CrownfallBoardVariant::Grand, true)
}

impl Default for CrownfallBoardState {
    /// The Standard starting layout.
    fn default() -> (r: CrownfallBoardState)
        ensures
            r.spec_variant() == CrownfallBoardVariant::Normal,
            r@ == spec_layout(CrownfallBoardVariant::Normal, false),
    {
        standard_layout()
    }
}

} // verus!
