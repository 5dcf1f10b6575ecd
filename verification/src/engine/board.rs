//! The board: a fixed-size cell array per supported size.
use vstd::prelude::*;
use crate::engine::types::{
    spec_board_length, spec_cell_count, CrownfallBoardVariant, CrownfallPiece,
};

verus! {

broadcast use vstd::array::group_array_axioms;

#[derive(Clone, Copy, Debug, Eq, PartialEq, Hash)]
pub enum CrownfallBoardState {
    Mini { cells: [Option<CrownfallPiece>; 25] },
    Normal { cells: [Option<CrownfallPiece>; 49] },
    Grand { cells: [Option<CrownfallPiece>; 81] },
}

impl View for CrownfallBoardState {
    type V = Seq<Option<CrownfallPiece>>;

    open spec fn view(&self) -> Seq<Option<CrownfallPiece>> {
        match self {
            CrownfallBoardState::Mini { cells } => cells@,
            CrownfallBoardState::Normal { cells } => cells@,
            CrownfallBoardState::Grand { cells } => cells@,
        }
    }
}

impl CrownfallBoardState {
    pub open spec fn spec_variant(&self) -> CrownfallBoardVariant {
        match self {
            CrownfallBoardState::Mini { .. } => CrownfallBoardVariant::Mini,
            CrownfallBoardState::Normal { .. } => CrownfallBoardVariant::Normal,
            CrownfallBoardState::Grand { .. } => CrownfallBoardVariant::Grand,
        }
    }

    /// The cell sequence always has exactly the variant's cell count.
    pub proof fn lemma_len(&self)
        ensures
            self@.len() == spec_cell_count(self.spec_variant()),
    {
    }

    pub fn cells(&self) -> (r: &[Option<CrownfallPiece>])
        ensures
            r@ == self@,
    {
        match self {
            CrownfallBoardState::Mini { cells } => cells.as_slice(),
            CrownfallBoardState::Normal { cells } => cells.as_slice(),
            CrownfallBoardState::Grand { cells } => cells.as_slice(),
        }
    }

    pub fn cells_mut(&mut self) -> (r: &mut [Option<CrownfallPiece>])
        ensures
            r@ == old(self)@,
            final(self).spec_variant() == old(self).spec_variant(),
            final(self)@ == final(r)@,
    {
        match self {
            CrownfallBoardState::Mini { cells } => cells,
            CrownfallBoardState::Normal { cells } => cells,
            CrownfallBoardState::Grand { cells } => cells,
        }
    }

    pub fn variant(&self) -> (r: CrownfallBoardVariant)
        ensures
            r == self.spec_variant(),
    {
        match self {
            CrownfallBoardState::Mini { .. } => CrownfallBoardVariant::Mini,
            CrownfallBoardState::Normal { .. } => CrownfallBoardVariant::Normal,
            CrownfallBoardState::Grand { .. } => CrownfallBoardVariant::Grand,
        }
    }

    pub fn board_length(&self) -> (r: usize)
        ensures
            r == spec_board_length(self.spec_variant()),
    {
        self.variant().length()
    }

    /// An empty board of the given size.
    #[verifier::spinoff_prover]
    pub fn empty(variant: CrownfallBoardVariant) -> (r: CrownfallBoardState)
        ensures
            r.spec_variant() == variant,
            r@.len() == spec_cell_count(variant),
            forall|i: int| 0 <= i < r@.len() ==> (#[trigger] r@[i]).is_none(),
    {
        match variant {
            CrownfallBoardVariant::Mini => {
                let cells: [Option<CrownfallPiece>; 25] = [None; 25];
                assert(cells == vstd::array::spec_array_fill_for_copy_type::<Option<CrownfallPiece>, 25>(None));
                assert(forall|i: int| 0 <= i < 25 ==> (#[trigger] cells@[i]).is_none());
                CrownfallBoardState::Mini { cells }
            },
            CrownfallBoardVariant::Normal => {
                let cells: [Option<CrownfallPiece>; 49] = [None; 49];
                assert(cells == vstd::array::spec_array_fill_for_copy_type::<Option<CrownfallPiece>, 49>(None));
                assert(forall|i: int| 0 <= i < 49 ==> (#[trigger] cells@[i]).is_none());
                CrownfallBoardState::Normal { cells }
            },
            CrownfallBoardVariant::Grand => {
                let cells: [Option<CrownfallPiece>; 81] = [None; 81];
                assert(cells == vstd::array::spec_array_fill_for_copy_type::<Option<CrownfallPiece>, 81>(None));
                assert(forall|i: int| 0 <= i < 81 ==> (#[trigger] cells@[i]).is_none());
                CrownfallBoardState::Grand { cells }
            },
        }
    }

    /// The piece at cell `i`.
    pub fn get(&self, i: usize) -> (r: Option<CrownfallPiece>)
        requires
            i < self@.len(),
        ensures
            r == self@[i as int],
    {
        match self {
            CrownfallBoardState::Mini { cells } => cells[i],
            CrownfallBoardState::Normal { cells } => cells[i],
            CrownfallBoardState::Grand { cells } => cells[i],
        }
    }

    /// Overwrites cell `i`.
    pub fn set(&mut self, i: usize, value: Option<CrownfallPiece>)
        requires
            i < old(self)@.len(),
        ensures
            final(self)@ == old(self)@.update(i as int, value),
            final(self).spec_variant() == old(self).spec_variant(),
    {
        match self {
            CrownfallBoardState::Mini { cells } => {
                cells[i] = value;
            },
            CrownfallBoardState::Normal { cells } => {
                cells[i] = value;
            },
            CrownfallBoardState::Grand { cells } => {
                cells[i] = value;
            },
        }
    }
}

} // verus!
