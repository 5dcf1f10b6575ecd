//! Data types of the 7x7 game.
use vstd::prelude::*;

verus! {

#[derive(Clone, Copy, Debug, Eq, PartialEq, Hash, Structural)]
pub enum PieceKind {
    Crown,
    Knight,
    Spy,
}

/// Side length of the board.
pub const BOARD_LENGTH: usize = 7;

/// Cells on the board.
pub const CELL_COUNT: usize = 49;

#[derive(Clone, Copy, Debug, Eq, PartialEq, Hash, Structural)]
pub enum PlayerKind {
    White,
    Black,
}

/// A board position as a cell index (row-major, `x + 7 * y`).
#[derive(Clone, Copy, Debug, Eq, PartialEq, Hash, Structural)]
pub struct Cell {
    pub index: usize,
}

#[derive(Clone, Copy, Debug, Eq, PartialEq)]
pub enum PlayState {
    WaitingForInput { player: PlayerKind },
    MustRemoveKnight { player: PlayerKind, options: (Cell, Cell) },
}

#[derive(Clone, Copy, Debug, Eq, PartialEq, Structural)]
pub enum DrawReason {
    /// The same position (board + player to move) occurred three times.
    Repetition,
    /// No capture occurred for a set number of consecutive turns.
    NoProgress,
    /// The game reached the absolute turn-count safety net.
    TurnLimit,
    /// A Knight Capture left one player with a single Knight and the other
    /// with none, both as a result of the same move.
    MutualKnightExhaustion,
}

#[derive(Clone, Copy, Debug, Eq, PartialEq)]
pub enum GameState {
    Playing(PlayState),
    Victory(PlayerKind),
    Draw(DrawReason),
}

#[derive(Clone, Copy, Debug, Eq, PartialEq, Hash, Structural)]
pub struct Piece {
    pub kind: PieceKind,
    pub player: PlayerKind,
}

#[derive(Clone, Copy, Debug, Eq, PartialEq, Hash)]
pub struct BoardState {
    pub cells: [Option<Piece>; 49],
}

impl View for BoardState {
    type V = Seq<Option<Piece>>;

    open spec fn view(&self) -> Seq<Option<Piece>> {
        self.cells@
    }
}

#[derive(Clone, Debug, Eq, PartialEq)]
pub struct Game {
    pub board: BoardState,
    pub state: GameState,
    /// Hashes of past positions (board + player to move), used to detect
    /// threefold repetition.
    pub history: Vec<u64>,
    /// Turns played since the last capture (the no-progress draw rule).
    pub moves_since_capture: u16,
}

#[derive(Clone, Copy, Debug, Eq, PartialEq, Structural)]
pub enum PlayerAction {
    Move { player: PlayerKind, from: Cell, to: Cell },
    KnightRemoval { player: PlayerKind, at: Cell },
    Surrender { player: PlayerKind },
}

#[derive(Clone, Copy, Debug, Eq, PartialEq, Structural)]
pub enum TurnResult {
    PieceMove { player: PlayerKind, from: Cell, to: Cell },
    Capture { player: PlayerKind, last_move_from: Cell, last_move_to: Cell, removed: Cell, second_attacker: Cell },
    Victory { player: PlayerKind, surrounded_crown: Cell },
}

impl DrawReason {
    pub fn description(&self) -> (r: &'static str)
        ensures
            *self == DrawReason::Repetition ==> r@ == "threefold repetition"@,
            *self == DrawReason::NoProgress ==> r@ == "no captures for too long"@,
            *self == DrawReason::TurnLimit ==> r@ == "turn limit reached"@,
            *self == DrawReason::MutualKnightExhaustion ==> r@ == "both sides out of knights"@,
    {
        match self {
            DrawReason::Repetition => "threefold repetition",
            DrawReason::NoProgress => "no captures for too long",
            DrawReason::TurnLimit => "turn limit reached",
            DrawReason::MutualKnightExhaustion => "both sides out of knights",
        }
    }
}

impl PlayerKind {
    pub open spec fn spec_opposite(self) -> PlayerKind {
        match self {
            PlayerKind::White => PlayerKind::Black,
            PlayerKind::Black => PlayerKind::White,
        }
    }

    pub fn opposite(self) -> (r: Self)
        ensures
            r == self.spec_opposite(),
            r != self,
    {
        match self {
            PlayerKind::White => PlayerKind::Black,
            PlayerKind::Black => PlayerKind::White,
        }
    }

    pub fn name(self) -> (r: &'static str)
        ensures
            self == PlayerKind::White ==> r@ == "White"@,
            self == PlayerKind::Black ==> r@ == "Black"@,
    {
        match self {
            PlayerKind::White => "White",
            PlayerKind::Black => "Black",
        }
    }

    pub fn symbol(self) -> (r: char)
        ensures
            r == (match self {
                PlayerKind::White => 'W',
                PlayerKind::Black => 'B',
            }),
    {
        match self {
            PlayerKind::White => 'W',
            PlayerKind::Black => 'B',
        }
    }

    pub open spec fn spec_index(self) -> int {
        match self {
            PlayerKind::White => 0,
            PlayerKind::Black => 1,
        }
    }
}

impl PieceKind {
    pub fn symbol(self) -> (r: char)
        ensures
            r == (match self {
                PieceKind::Crown => 'C',
                PieceKind::Knight => 'K',
                PieceKind::Spy => 'S',
            }),
    {
        match self {
            PieceKind::Crown => 'C',
            PieceKind::Knight => 'K',
            PieceKind::Spy => 'S',
        }
    }

    pub fn name(self) -> (r: &'static str)
        ensures
            self == PieceKind::Crown ==> r@ == "Crown"@,
            self == PieceKind::Knight ==> r@ == "Knight"@,
            self == PieceKind::Spy ==> r@ == "Spy"@,
    {
        match self {
            PieceKind::Crown => "Crown",
            PieceKind::Knight => "Knight",
            PieceKind::Spy => "Spy",
        }
    }

    pub open spec fn spec_index(self) -> int {
        match self {
            PieceKind::Crown => 0,
            PieceKind::Knight => 1,
            PieceKind::Spy => 2,
        }
    }
}

impl PlayerAction {
    pub open spec fn spec_player(self) -> PlayerKind {
        match self {
            PlayerAction::Move { player, .. } => player,
            PlayerAction::KnightRemoval { player, .. } => player,
            PlayerAction::Surrender { player } => player,
        }
    }

    pub fn player(&self) -> (r: PlayerKind)
        ensures
            r == self.spec_player(),
    {
        match self {
            PlayerAction::Move { player, .. } => *player,
            PlayerAction::KnightRemoval { player, .. } => *player,
            PlayerAction::Surrender { player } => *player,
        }
    }
}

impl PlayState {
    pub open spec fn spec_player(self) -> PlayerKind {
        match self {
            PlayState::WaitingForInput { player } => player,
            PlayState::MustRemoveKnight { player, .. } => player,
        }
    }

    pub fn player(&self) -> (r: PlayerKind)
        ensures
            r == self.spec_player(),
    {
        match self {
            PlayState::WaitingForInput { player } => *player,
            PlayState::MustRemoveKnight { player, .. } => *player,
        }
    }
}

/// Column of a cell index.
pub open spec fn spec_lx(i: int) -> int {
    i % 7
}

/// Row of a cell index.
pub open spec fn spec_ly(i: int) -> int {
    i / 7
}

impl Cell {
    pub fn new_index(index: usize) -> (r: Cell)
        ensures
            r.index == index,
    {
        Cell { index }
    }

    pub fn new_coord(x: usize, y: usize) -> (r: Cell)
        requires
            x + y * 7 <= usize::MAX,
        ensures
            r.index == x + y * 7,
    {
        Cell { index: x + y * BOARD_LENGTH }
    }

    pub fn to_index(self) -> (r: usize)
        ensures
            r == self.index,
    {
        self.index
    }

    pub fn to_coord(self) -> (r: (usize, usize))
        requires
            self.index < 49,
        ensures
            r.0 == spec_lx(self.index as int),
            r.1 == spec_ly(self.index as int),
            r.0 < 7 && r.1 < 7,
            self.index == r.0 + 7 * r.1,
    {
        (self.index % BOARD_LENGTH, self.index / BOARD_LENGTH)
    }
}

/// Cell coordinates round-trip through a cell index.
pub proof fn lemma_cell_coord_roundtrip(x: int, y: int)
    requires
        0 <= x < 7,
        0 <= y < 7,
    ensures
        spec_lx(x + 7 * y) == x,
        spec_ly(x + 7 * y) == y,
{
}

} // verus!
