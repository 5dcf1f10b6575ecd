use vstd::prelude::*;

verus! {

/// The kind of a piece. Archers only appear on boards that field them
/// (the Grand layout and the Archers ruleset).
#[derive(Clone, Copy, Debug, Eq, PartialEq, Hash, Structural)]
pub enum CrownfallPieceKind {
    Crown,
    Knight,
    Spy,
    /// Captures at range 2 (orthogonal) instead of by pincer, provided an
    /// allied Crown/Knight/Spy is orthogonally adjacent to the target.
    Archer,
}

/// The three supported board sizes / piece-set combinations.
#[derive(Clone, Copy, Debug, Eq, PartialEq, Hash, Structural)]
pub enum CrownfallBoardVariant {
    /// 5x5, 3 Knights / 2 Spies / 1 Crown per side.
    Mini,
    /// 7x7, 6 Knights / 3 Spies / 1 Crown per side - the default board.
    Normal,
    /// 9x9, 8 Knights / 3 Spies / 1 Crown / 2 Archers per side.
    Grand,
}

/// Side length of a board variant.
pub open spec fn spec_board_length(v: CrownfallBoardVariant) -> int {
    match v {
        CrownfallBoardVariant::Mini => 5,
        CrownfallBoardVariant::Normal => 7,
        CrownfallBoardVariant::Grand => 9,
    }
}

/// Number of cells of a board variant.
pub open spec fn spec_cell_count(v: CrownfallBoardVariant) -> int {
    match v {
        CrownfallBoardVariant::Mini => 25,
        CrownfallBoardVariant::Normal => 49,
        CrownfallBoardVariant::Grand => 81,
    }
}

impl CrownfallBoardVariant {
    pub fn length(self) -> (r: usize)
        ensures
            r == spec_board_length(self),
    {
        match self {
            CrownfallBoardVariant::Mini => 5,
            CrownfallBoardVariant::Normal => 7,
            CrownfallBoardVariant::Grand => 9,
        }
    }

    /// Turns without a capture before the no-progress draw rule fires:
    /// 30 on Mini, double the Normal value on Grand.
    pub open spec fn spec_no_progress_limit(self) -> u16 {
        match self {
            CrownfallBoardVariant::Mini => 30,
            CrownfallBoardVariant::Normal => 40,
            CrownfallBoardVariant::Grand => 80,
        }
    }

    /// The absolute turn-count safety net: half the Normal value on Mini,
    /// double on Grand.
    pub open spec fn spec_total_turn_limit(self) -> u16 {
        match self {
            CrownfallBoardVariant::Mini => 100,
            CrownfallBoardVariant::Normal => 200,
            CrownfallBoardVariant::Grand => 400,
        }
    }

    pub fn no_progress_limit(self) -> (r: u16)
        ensures
            r == self.spec_no_progress_limit(),
    {
        match self {
            CrownfallBoardVariant::Mini => MINI_NO_PROGRESS_LIMIT,
            CrownfallBoardVariant::Normal => NO_PROGRESS_LIMIT,
            CrownfallBoardVariant::Grand => NO_PROGRESS_LIMIT * 2,
        }
    }

    pub fn total_turn_limit(self) -> (r: u16)
        ensures
            r == self.spec_total_turn_limit(),
    {
        match self {
            CrownfallBoardVariant::Mini => TOTAL_TURN_LIMIT / 2,
            CrownfallBoardVariant::Normal => TOTAL_TURN_LIMIT,
            CrownfallBoardVariant::Grand => TOTAL_TURN_LIMIT * 2,
        }
    }
}

/// Turns without a capture before the no-progress draw fires on the Normal
/// board (chess's 50-move rule, adapted: a capture is the only progress).
pub const NO_PROGRESS_LIMIT: u16 = 40;

/// The no-progress limit on the Mini board.
pub const MINI_NO_PROGRESS_LIMIT: u16 = 30;

/// Absolute turn-count safety net on the Normal board.
pub const TOTAL_TURN_LIMIT: u16 = 200;

/// Board size plus the behavioural toggles.
#[derive(Clone, Copy, Debug, Eq, PartialEq, Hash, Structural)]
pub struct CrownfallRules {
    pub board: CrownfallBoardVariant,
    pub ruleset: CrownfallRuleset,
}

#[derive(Clone, Copy, Debug, Eq, PartialEq, Hash, Structural)]
pub enum CrownfallRuleset {
    /// Armies of Archers around a single Spy; attrition never applies.
    Archers,
    Custom {
        /// If any capturing move exists for the player to move, only
        /// capturing moves are legal this turn.
        mandatory_capture: bool,
        /// A move that both walks the mover into an enemy pincer and
        /// completes the mover's own pincer resolves both captures.
        all_captures_processed: bool,
        /// Knights move diagonally forward and capture orthogonally
        /// forward/left/right (the two shapes swap roles).
        knights_move_diagonally: bool,
        /// A Knight Capture costs no Knight when the attacker has 3 or more
        /// Knights around the target.
        knight_mass_capture: bool,
    },
}

impl CrownfallRuleset {
    pub open spec fn spec_mandatory_capture(self) -> bool {
        match self {
            CrownfallRuleset::Custom { mandatory_capture, .. } => mandatory_capture,
            CrownfallRuleset::Archers => false,
        }
    }

    pub open spec fn spec_all_captures_processed(self) -> bool {
        match self {
            CrownfallRuleset::Custom { all_captures_processed, .. } => all_captures_processed,
            CrownfallRuleset::Archers => false,
        }
    }

    pub open spec fn spec_knights_move_diagonally(self) -> bool {
        match self {
            CrownfallRuleset::Custom { knights_move_diagonally, .. } => knights_move_diagonally,
            CrownfallRuleset::Archers => false,
        }
    }

    pub open spec fn spec_knight_mass_capture(self) -> bool {
        match self {
            CrownfallRuleset::Custom { knight_mass_capture, .. } => knight_mass_capture,
            CrownfallRuleset::Archers => false,
        }
    }

    pub fn mandatory_capture(self) -> (r: bool)
        ensures
            r == self.spec_mandatory_capture(),
    {
        match self {
            CrownfallRuleset::Custom { mandatory_capture, .. } => mandatory_capture,
            CrownfallRuleset::Archers => false,
        }
    }

    pub fn all_captures_processed(self) -> (r: bool)
        ensures
            r == self.spec_all_captures_processed(),
    {
        match self {
            CrownfallRuleset::Custom { all_captures_processed, .. } => all_captures_processed,
            CrownfallRuleset::Archers => false,
        }
    }

    pub fn knights_move_diagonally(self) -> (r: bool)
        ensures
            r == self.spec_knights_move_diagonally(),
    {
        match self {
            CrownfallRuleset::Custom { knights_move_diagonally, .. } => knights_move_diagonally,
            CrownfallRuleset::Archers => false,
        }
    }

    pub fn knight_mass_capture(self) -> (r: bool)
        ensures
            r == self.spec_knight_mass_capture(),
    {
        match self {
            CrownfallRuleset::Custom { knight_mass_capture, .. } => knight_mass_capture,
            CrownfallRuleset::Archers => false,
        }
    }
}

/// The custom ruleset with the given toggles.
pub open spec fn spec_custom(board: CrownfallBoardVariant, m: bool, a: bool, d: bool, k: bool) -> CrownfallRules {
    CrownfallRules {
        board,
        ruleset: CrownfallRuleset::Custom {
            mandatory_capture: m,
            all_captures_processed: a,
            knights_move_diagonally: d,
            knight_mass_capture: k,
        },
    }
}

impl CrownfallRules {
    pub fn standard() -> (r: CrownfallRules)
        ensures
            r == spec_custom(CrownfallBoardVariant::Normal, false, false, false, false),
    {
        CrownfallRules {
            board: CrownfallBoardVariant::Normal,
            ruleset: CrownfallRuleset::Custom {
                mandatory_capture: false,
                all_captures_processed: false,
                knights_move_diagonally: false,
                knight_mass_capture: false,
            },
        }
    }

    pub fn mini() -> (r: CrownfallRules)
        ensures
            r == spec_custom(CrownfallBoardVariant::Mini, false, false, false, false),
    {
        CrownfallRules { board: CrownfallBoardVariant::Mini, ..CrownfallRules::standard() }
    }

    pub fn grand() -> (r: CrownfallRules)
        ensures
            r == spec_custom(CrownfallBoardVariant::Grand, false, false, false, false),
    {
        CrownfallRules { board: CrownfallBoardVariant::Grand, ..CrownfallRules::standard() }
    }

    pub fn standard_archers() -> (r: CrownfallRules)
        ensures
            r == (CrownfallRules { board: CrownfallBoardVariant::Normal, ruleset: CrownfallRuleset::Archers }),
    {
        CrownfallRules { board: CrownfallBoardVariant::Normal, ruleset: CrownfallRuleset::Archers }
    }

    pub fn mini_archers() -> (r: CrownfallRules)
        ensures
            r == (CrownfallRules { board: CrownfallBoardVariant::Mini, ruleset: CrownfallRuleset::Archers }),
    {
        CrownfallRules { board: CrownfallBoardVariant::Mini, ruleset: CrownfallRuleset::Archers }
    }

    pub fn grand_archers() -> (r: CrownfallRules)
        ensures
            r == (CrownfallRules { board: CrownfallBoardVariant::Grand, ruleset: CrownfallRuleset::Archers }),
    {
        CrownfallRules { board: CrownfallBoardVariant::Grand, ruleset: CrownfallRuleset::Archers }
    }

    pub fn standard_mandatory_capture() -> (r: CrownfallRules)
        ensures
            r == spec_custom(CrownfallBoardVariant::Normal, true, false, false, false),
    {
        CrownfallRules {
            ruleset: CrownfallRuleset::Custom {
                mandatory_capture: true,
                all_captures_processed: false,
                knights_move_diagonally: false,
                knight_mass_capture: false,
            },
            ..CrownfallRules::standard()
        }
    }

    pub fn standard_all_captures_processed() -> (r: CrownfallRules)
        ensures
            r == spec_custom(CrownfallBoardVariant::Normal, false, true, false, false),
    {
        CrownfallRules {
            ruleset: CrownfallRuleset::Custom {
                mandatory_capture: false,
                all_captures_processed: true,
                knights_move_diagonally: false,
                knight_mass_capture: false,
            },
            ..CrownfallRules::standard()
        }
    }

    pub fn standard_diagonal_knights() -> (r: CrownfallRules)
        ensures
            r == spec_custom(CrownfallBoardVariant::Normal, false, false, true, false),
    {
        CrownfallRules {
            ruleset: CrownfallRuleset::Custom {
                mandatory_capture: false,
                all_captures_processed: false,
                knights_move_diagonally: true,
                knight_mass_capture: false,
            },
            ..CrownfallRules::standard()
        }
    }

    pub fn standard_knight_mass_capture() -> (r: CrownfallRules)
        ensures
            r == spec_custom(CrownfallBoardVariant::Normal, false, false, false, true),
    {
        CrownfallRules {
            ruleset: CrownfallRuleset::Custom {
                mandatory_capture: false,
                all_captures_processed: false,
                knights_move_diagonally: false,
                knight_mass_capture: true,
            },
            ..CrownfallRules::standard()
        }
    }

    /// The armies include Archers: the Grand board's piece set has two per
    /// side, and the Archers ruleset's armies are all Archers.
    pub fn has_archers(&self) -> (r: bool)
        ensures
            r == (self.board == CrownfallBoardVariant::Grand || self.ruleset == CrownfallRuleset::Archers),
    {
        match self.ruleset {
            CrownfallRuleset::Archers => true,
            _ => match self.board {
                CrownfallBoardVariant::Grand => true,
                _ => false,
            },
        }
    }

    /// True under the all-Archer ruleset, the one ruleset attrition never
    /// applies to.
    pub fn is_archers_ruleset(&self) -> (r: bool)
        ensures
            r == (self.ruleset == CrownfallRuleset::Archers),
    {
        match self.ruleset {
            CrownfallRuleset::Archers => true,
            _ => false,
        }
    }
}

impl Default for CrownfallRules {
    fn default() -> (r: CrownfallRules)
        ensures
            r == spec_custom(CrownfallBoardVariant::Normal, false, false, false, false),
    {
        CrownfallRules::standard()
    }
}

#[derive(Clone, Copy, Debug, Eq, PartialEq, Hash, Structural)]
pub enum CrownfallPlayerKind {
    White,
    Black,
}

/// 0 for White, 1 for Black: the index into per-player tables.
pub open spec fn spec_player_index(p: CrownfallPlayerKind) -> int {
    match p {
        CrownfallPlayerKind::White => 0,
        CrownfallPlayerKind::Black => 1,
    }
}

impl CrownfallPlayerKind {
    pub open spec fn spec_opposite(self) -> CrownfallPlayerKind {
        match self {
            CrownfallPlayerKind::White => CrownfallPlayerKind::Black,
            CrownfallPlayerKind::Black => CrownfallPlayerKind::White,
        }
    }

    pub fn opposite(self) -> (r: Self)
        ensures
            r == self.spec_opposite(),
            r != self,
    {
        match self {
            CrownfallPlayerKind::White => CrownfallPlayerKind::Black,
            CrownfallPlayerKind::Black => CrownfallPlayerKind::White,
        }
    }

    pub fn name(self) -> (r: &'static str)
        ensures
            self == CrownfallPlayerKind::White ==> r@ == "White"@,
            self == CrownfallPlayerKind::Black ==> r@ == "Black"@,
    {
        match self {
            CrownfallPlayerKind::White => "White",
            CrownfallPlayerKind::Black => "Black",
        }
    }

    pub fn symbol(self) -> (r: char)
        ensures
            self == CrownfallPlayerKind::White ==> r == 'W',
            self == CrownfallPlayerKind::Black ==> r == 'B',
    {
        match self {
            CrownfallPlayerKind::White => 'W',
            CrownfallPlayerKind::Black => 'B',
        }
    }

    /// 0 for White, 1 for Black.
    pub fn index(self) -> (r: usize)
        ensures
            r == spec_player_index(self),
    {
        match self {
            CrownfallPlayerKind::White => 0,
            CrownfallPlayerKind::Black => 1,
        }
    }
}

/// Taking the opposite player twice gives the player back.
pub proof fn lemma_opposite_involution(p: CrownfallPlayerKind)
    ensures
        p.spec_opposite().spec_opposite() == p,
        p.spec_opposite() != p,
{
}

/// 0..3 for Crown, Knight, Spy, Archer.
pub open spec fn spec_kind_index(k: CrownfallPieceKind) -> int {
    match k {
        CrownfallPieceKind::Crown => 0,
        CrownfallPieceKind::Knight => 1,
        CrownfallPieceKind::Spy => 2,
        CrownfallPieceKind::Archer => 3,
    }
}

impl CrownfallPieceKind {
    pub fn symbol(self) -> (r: char)
        ensures
            self == CrownfallPieceKind::Crown ==> r == 'C',
            self == CrownfallPieceKind::Knight ==> r == 'K',
            self == CrownfallPieceKind::Spy ==> r == 'S',
            self == CrownfallPieceKind::Archer ==> r == 'A',
    {
        match self {
            CrownfallPieceKind::Crown => 'C',
            CrownfallPieceKind::Knight => 'K',
            CrownfallPieceKind::Spy => 'S',
            CrownfallPieceKind::Archer => 'A',
        }
    }

    pub fn name(self) -> (r: &'static str)
        ensures
            self == CrownfallPieceKind::Crown ==> r@ == "Crown"@,
            self == CrownfallPieceKind::Knight ==> r@ == "Knight"@,
            self == CrownfallPieceKind::Spy ==> r@ == "Spy"@,
            self == CrownfallPieceKind::Archer ==> r@ == "Archer"@,
    {
        match self {
            CrownfallPieceKind::Crown => "Crown",
            CrownfallPieceKind::Knight => "Knight",
            CrownfallPieceKind::Spy => "Spy",
            CrownfallPieceKind::Archer => "Archer",
        }
    }

    pub fn index(self) -> (r: usize)
        ensures
            r == spec_kind_index(self),
    {
        match self {
            CrownfallPieceKind::Crown => 0,
            CrownfallPieceKind::Knight => 1,
            CrownfallPieceKind::Spy => 2,
            CrownfallPieceKind::Archer => 3,
        }
    }
}

#[derive(Clone, Copy, Debug, Eq, PartialEq, Hash)]
pub enum CrownfallPlayState {
    WaitingForInput { player: CrownfallPlayerKind },
    MustRemoveKnight {
        player: CrownfallPlayerKind,
        options: (CrownfallBoardCell, CrownfallBoardCell),
    },
}

impl CrownfallPlayState {
    pub open spec fn spec_player(self) -> CrownfallPlayerKind {
        match self {
            CrownfallPlayState::WaitingForInput { player } => player,
            CrownfallPlayState::MustRemoveKnight { player, .. } => player,
        }
    }

    pub fn player(&self) -> (r: CrownfallPlayerKind)
        ensures
            r == self.spec_player(),
    {
        match self {
            CrownfallPlayState::WaitingForInput { player } => *player,
            CrownfallPlayState::MustRemoveKnight { player, .. } => *player,
        }
    }
}

#[derive(Clone, Copy, Debug, Eq, PartialEq, Hash)]
pub enum CrownfallGameState {
    Playing(CrownfallPlayState),
    Victory(CrownfallPlayerKind, WinReason),
    Draw(DrawReason),
}

#[derive(Clone, Copy, Debug, Eq, PartialEq, Hash, Structural)]
pub enum WinReason {
    /// The loser's Crown was surrounded by a valid enemy pair.
    CrownCaptured,
    /// The loser was left with one or fewer Knights and one or fewer Spies.
    Attrition,
    /// The loser surrendered.
    Surrender,
}

impl WinReason {
    pub fn description(&self) -> (r: &'static str)
        ensures
            *self == WinReason::CrownCaptured ==> r@ == "crown captured"@,
            *self == WinReason::Attrition ==> r@ == "opponent out of knights and spies"@,
            *self == WinReason::Surrender ==> r@ == "opponent surrendered"@,
    {
        match self {
            WinReason::CrownCaptured => "crown captured",
            WinReason::Attrition => "opponent out of knights and spies",
            WinReason::Surrender => "opponent surrendered",
        }
    }
}

#[derive(Clone, Copy, Debug, Eq, PartialEq, Hash, Structural)]
pub enum DrawReason {
    /// The same position (board + player to move) occurred three times.
    Repetition,
    /// No capture occurred for a set number of consecutive turns.
    NoProgress,
    /// The game reached the absolute turn-count safety net.
    TurnLimit,
    /// Both sides ran out of Knights from the same capture.
    MutualKnightExhaustion,
}

impl DrawReason {
    pub fn description(&self) -> (r: &'static str)
        ensures
            *self == DrawReason::Repetition ==> r@ == "threefold repetition"@,
            *self == DrawReason::NoProgress ==> r@ == "no captures for too long"@,
            *self == DrawReason::TurnLimit ==> r@ == "turn limit reached"@,
            *self == DrawReason::MutualKnightExhaustion ==> r@ == "both sides out of knights"@,
    {
        match self {
            DrawReason::Repetition => "threefold repetition",
            DrawReason::NoProgress => "no captures for too long",
            DrawReason::TurnLimit => "turn limit reached",
            DrawReason::MutualKnightExhaustion => "both sides out of knights",
        }
    }
}

/// A piece on the board: its kind and its owner.
#[derive(Clone, Copy, Debug, Eq, PartialEq, Hash, Structural)]
pub struct CrownfallPiece {
    kind: CrownfallPieceKind,
    player: CrownfallPlayerKind,
}

impl CrownfallPiece {
    pub closed spec fn spec_kind(self) -> CrownfallPieceKind {
        self.kind
    }

    pub closed spec fn spec_player(self) -> CrownfallPlayerKind {
        self.player
    }

    /// `kind + 4 * player`: the piece's index into the per-cell key table.
    pub open spec fn spec_code(self) -> int {
        spec_kind_index(self.spec_kind()) + 4 * spec_player_index(self.spec_player())
    }

    /// The piece of `kind` owned by `player`.
    pub closed spec fn spec_new(kind: CrownfallPieceKind, player: CrownfallPlayerKind) -> CrownfallPiece {
        CrownfallPiece { kind, player }
    }

    pub broadcast proof fn lemma_spec_new(kind: CrownfallPieceKind, player: CrownfallPlayerKind)
        ensures
            #[trigger] CrownfallPiece::spec_new(kind, player).spec_kind() == kind,
            CrownfallPiece::spec_new(kind, player).spec_player() == player,
    {
    }

    pub fn new(kind: CrownfallPieceKind, player: CrownfallPlayerKind) -> (r: CrownfallPiece)
        ensures
            r.spec_kind() == kind,
            r.spec_player() == player,
            r == CrownfallPiece::spec_new(kind, player),
    {
        CrownfallPiece { kind, player }
    }

    pub fn kind(self) -> (r: CrownfallPieceKind)
        ensures
            r == self.spec_kind(),
    {
        self.kind
    }

    pub fn player(self) -> (r: CrownfallPlayerKind)
        ensures
            r == self.spec_player(),
    {
        self.player
    }

    pub fn code(self) -> (r: usize)
        ensures
            r == self.spec_code(),
            r < 8,
    {
        self.kind.index() + 4 * self.player.index()
    }

    /// The piece packed into one byte: bit 3 always set (so the byte is
    /// never zero), bit 2 the player (Black set), bits 0-1 the kind (Crown,
    /// Knight, Spy, Archer).
    pub open spec fn spec_to_byte(self) -> int {
        8 + self.spec_code()
    }

    pub fn to_byte(self) -> (r: u8)
        ensures
            r == self.spec_to_byte(),
            8 <= r < 16,
    {
        let c = self.code();
        8 + c as u8
    }

    /// The piece a byte packs, or `None` for a byte outside `8..16`.
    pub fn from_byte(byte: u8) -> (r: Option<CrownfallPiece>)
        ensures
            r is Some <==> 8 <= byte < 16,
            r matches Some(p) ==> p.spec_to_byte() == byte,
    {
        if byte < 8 || byte >= 16 {
            return None;
        }
        let code = byte - 8;
        let kind = match code % 4 {
            0 => CrownfallPieceKind::Crown,
            1 => CrownfallPieceKind::Knight,
            2 => CrownfallPieceKind::Spy,
            _ => CrownfallPieceKind::Archer,
        };
        let player = if code < 4 { CrownfallPlayerKind::White } else { CrownfallPlayerKind::Black };
        Some(CrownfallPiece { kind, player })
    }
}

/// Law: unpacking a packed piece gives the piece back, and packing is
/// one-to-one, so every byte in `8..16` names exactly one piece.
pub proof fn lemma_piece_byte_roundtrip(p: CrownfallPiece, q: CrownfallPiece)
    ensures
        8 <= p.spec_to_byte() < 16,
        p.spec_to_byte() == q.spec_to_byte() <==> p == q,
{
    lemma_piece_identity(p, q);
}

/// Two pieces are equal exactly when their kinds and owners are.
pub proof fn lemma_piece_identity(a: CrownfallPiece, b: CrownfallPiece)
    ensures
        (a.spec_kind() == b.spec_kind() && a.spec_player() == b.spec_player()) <==> a == b,
        a.spec_code() == b.spec_code() <==> a == b,
{
}

/// A board position as a cell index (the largest board has 81 cells).
#[derive(Clone, Copy, Debug, Eq, PartialEq, Hash, Structural)]
pub struct CrownfallBoardCell {
    pub index: u8,
}

/// Column of a cell index.
pub open spec fn spec_x(v: CrownfallBoardVariant, i: int) -> int {
    match v {
        CrownfallBoardVariant::Mini => i % 5,
        CrownfallBoardVariant::Normal => i % 7,
        CrownfallBoardVariant::Grand => i % 9,
    }
}

/// Row of a cell index.
pub open spec fn spec_y(v: CrownfallBoardVariant, i: int) -> int {
    match v {
        CrownfallBoardVariant::Mini => i / 5,
        CrownfallBoardVariant::Normal => i / 7,
        CrownfallBoardVariant::Grand => i / 9,
    }
}

impl CrownfallBoardCell {
    pub open spec fn spec_index(self) -> int {
        self.index as int
    }

    pub fn new_index(index: usize) -> (r: CrownfallBoardCell)
        requires
            index <= 255,
        ensures
            r.index == index,
    {
        CrownfallBoardCell { index: index as u8 }
    }

    pub fn new_coord(x: usize, y: usize, board: CrownfallBoardVariant) -> (r: CrownfallBoardCell)
        requires
            x + y * spec_board_length(board) <= usize::MAX,
        ensures
            r.index == (x + y * spec_board_length(board)) as u8,
            x < spec_board_length(board) && y < spec_board_length(board) ==> r.index == x + y
                * spec_board_length(board),
    {
        let l = board.length();
        assert(x < l && y < l ==> x + y * l < 81) by (nonlinear_arith)
            requires
                l <= 9,
        ;
        CrownfallBoardCell { index: (x + y * l) as u8 }
    }

    pub fn to_index(self) -> (r: usize)
        ensures
            r == self.index,
    {
        self.index as usize
    }

    pub fn to_coord(self, board: CrownfallBoardVariant) -> (r: (usize, usize))
        requires
            self.index < spec_cell_count(board),
        ensures
            r.0 == spec_x(board, self.index as int),
            r.1 == spec_y(board, self.index as int),
    {
        let i = self.index as usize;
        match board {
            CrownfallBoardVariant::Mini => (i % 5, i / 5),
            CrownfallBoardVariant::Normal => (i % 7, i / 7),
            CrownfallBoardVariant::Grand => (i % 9, i / 9),
        }
    }
}

/// A cell built from in-range coordinates reports those coordinates back.
pub proof fn lemma_coord_roundtrip(v: CrownfallBoardVariant, x: int, y: int)
    requires
        0 <= x < spec_board_length(v),
        0 <= y < spec_board_length(v),
    ensures
        0 <= x + y * spec_board_length(v) < spec_cell_count(v),
        spec_x(v, x + y * spec_board_length(v)) == x,
        spec_y(v, x + y * spec_board_length(v)) == y,
{
}

#[derive(Clone, Copy, Debug, Eq, PartialEq, Hash, Structural)]
pub enum CrownfallPlayerAction {
    Move { player: CrownfallPlayerKind, from: CrownfallBoardCell, to: CrownfallBoardCell },
    KnightRemoval { player: CrownfallPlayerKind, at: CrownfallBoardCell },
    Surrender { player: CrownfallPlayerKind },
}

impl CrownfallPlayerAction {
    pub open spec fn spec_player(self) -> CrownfallPlayerKind {
        match self {
            CrownfallPlayerAction::Move { player, .. } => player,
            CrownfallPlayerAction::KnightRemoval { player, .. } => player,
            CrownfallPlayerAction::Surrender { player } => player,
        }
    }

    pub fn player(&self) -> (r: CrownfallPlayerKind)
        ensures
            r == self.spec_player(),
    {
        match self {
            CrownfallPlayerAction::Move { player, .. } => *player,
            CrownfallPlayerAction::KnightRemoval { player, .. } => *player,
            CrownfallPlayerAction::Surrender { player } => *player,
        }
    }
}

#[derive(Clone, Copy, Debug, Eq, PartialEq, Hash, Structural)]
pub enum CrownfallTurnResult {
    PieceMove { player: CrownfallPlayerKind, from: CrownfallBoardCell, to: CrownfallBoardCell },
    Capture {
        player: CrownfallPlayerKind,
        last_move_from: CrownfallBoardCell,
        last_move_to: CrownfallBoardCell,
        removed: CrownfallBoardCell,
        second_attacker: CrownfallBoardCell,
    },
    Victory { player: CrownfallPlayerKind, surrounded_crown: CrownfallBoardCell },
}

} // verus!
