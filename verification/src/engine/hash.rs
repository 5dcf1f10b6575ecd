//! Position hashing for repetition detection: Zobrist hashing over
//! per-(cell, piece) keys generated with splitmix64's output mix. Only
//! occupied cells contribute (one XOR each), so a cell change updates a
//! hash with two XORs and no rescan.
use vstd::prelude::*;
use crate::engine::board::CrownfallBoardState;
use crate::engine::types::{spec_player_index, CrownfallPiece, CrownfallPlayerKind};

verus! {

/// 4 piece kinds x 2 players.
pub const PIECE_CODES: u64 = 8;

/// Cells on the largest board; keys are generated for this many cells.
pub const KEY_CELLS: u64 = 81;

/// splitmix64's output mix over a counter, kept to its high 32 bits.
pub open spec fn spec_zobrist_key(index: u64) -> u32 {
    let z0 = vstd::wrapping::u64_specs::wrapping_mul(
        vstd::wrapping::u64_specs::wrapping_add(index, 1),
        0x9E37_79B9_7F4A_7C15u64,
    );
    let z1 = vstd::wrapping::u64_specs::wrapping_mul(z0 ^ (z0 >> 30u64), 0xBF58_476D_1CE4_E5B9u64);
    let z2 = vstd::wrapping::u64_specs::wrapping_mul(z1 ^ (z1 >> 27u64), 0x94D0_49BB_1331_11EBu64);
    ((z2 ^ (z2 >> 31u64)) >> 32u64) as u32
}

pub fn zobrist_key(index: u64) -> (r: u32)
    ensures
        r == spec_zobrist_key(index),
{
    let mut z = index.wrapping_add(1).wrapping_mul(0x9E37_79B9_7F4A_7C15u64);
    z = (z ^ (z >> 30u64)).wrapping_mul(0xBF58_476D_1CE4_E5B9u64);
    z = (z ^ (z >> 27u64)).wrapping_mul(0x94D0_49BB_1331_11EBu64);
    ((z ^ (z >> 31u64)) >> 32u64) as u32
}

/// The key of one (cell, piece) pairing.
pub open spec fn spec_piece_key(index: int, piece: CrownfallPiece) -> u32 {
    spec_zobrist_key((index * 8 + piece.spec_code()) as u64)
}

/// The key a cell's content contributes: nothing for an empty cell.
pub open spec fn spec_cell_key(index: int, cell: Option<CrownfallPiece>) -> u32 {
    match cell {
        Some(piece) => spec_piece_key(index, piece),
        None => 0,
    }
}

/// The side-to-move key, XORed in when Black is to move.
pub open spec fn spec_side_key() -> u32 {
    spec_zobrist_key((KEY_CELLS * PIECE_CODES) as u64)
}

pub fn piece_key(index: usize, piece: CrownfallPiece) -> (r: u32)
    requires
        index < 81,
    ensures
        r == spec_piece_key(index as int, piece),
{
    zobrist_key((index * 8 + piece.code()) as u64)
}

pub fn cell_key(index: usize, cell: Option<CrownfallPiece>) -> (r: u32)
    requires
        index < 81,
    ensures
        r == spec_cell_key(index as int, cell),
{
    match cell {
        Some(piece) => piece_key(index, piece),
        None => 0,
    }
}

pub fn side_to_move_toggle() -> (r: u32)
    ensures
        r == spec_side_key(),
{
    zobrist_key(KEY_CELLS * PIECE_CODES)
}

/// XOR of the keys of the first `n` cells.
pub open spec fn spec_cells_hash(cells: Seq<Option<CrownfallPiece>>, n: int) -> u32
    decreases n,
{
    if n <= 0 {
        0
    } else {
        spec_cells_hash(cells, n - 1) ^ spec_cell_key(n - 1, cells[n - 1])
    }
}

/// Hash of a position: board contents plus the player to move.
pub open spec fn spec_position_hash(cells: Seq<Option<CrownfallPiece>>, next: CrownfallPlayerKind) -> u32 {
    spec_cells_hash(cells, cells.len() as int) ^ (if spec_player_index(next) == 1 {
        spec_side_key()
    } else {
        0
    })
}

proof fn lemma_xor_facts(a: u32, b: u32, c: u32)
    ensures
        (a ^ b) ^ c == a ^ (b ^ c),
        a ^ b == b ^ a,
        a ^ 0 == a,
        a ^ a == 0,
{
    assert((a ^ b) ^ c == a ^ (b ^ c)) by (bit_vector);
    assert(a ^ b == b ^ a) by (bit_vector);
    assert(a ^ 0 == a) by (bit_vector);
    assert(a ^ a == 0) by (bit_vector);
}

/// Changing one cell changes the hash by exactly the old and new content's
/// keys: this is what makes incremental hashing agree with a full rescan.
pub proof fn lemma_cells_hash_update(cells: Seq<Option<CrownfallPiece>>, i: int, v: Option<CrownfallPiece>, n: int)
    requires
        0 <= i < cells.len(),
        n <= cells.len(),
    ensures
        spec_cells_hash(cells.update(i, v), n) == if i < n {
            spec_cells_hash(cells, n) ^ spec_cell_key(i, cells[i]) ^ spec_cell_key(i, v)
        } else {
            spec_cells_hash(cells, n)
        },
    decreases n,
{
    let upd = cells.update(i, v);
    if n <= 0 {
    } else {
        lemma_cells_hash_update(cells, i, v, n - 1);
        let h = spec_cells_hash(cells, n - 1);
        let ko = spec_cell_key(i, cells[i]);
        let kn = spec_cell_key(i, v);
        let kl = spec_cell_key(n - 1, cells[n - 1]);
        if i < n - 1 {
            assert(upd[n - 1] == cells[n - 1]);
            lemma_xor_facts(h, ko, kn);
            assert(((h ^ ko) ^ kn) ^ kl == ((h ^ kl) ^ ko) ^ kn) by (bit_vector);
        } else if i == n - 1 {
            assert(upd[n - 1] == v);
            assert(h ^ kn == ((h ^ ko) ^ ko) ^ kn) by (bit_vector);
        } else {
            assert(upd[n - 1] == cells[n - 1]);
        }
    }
}

pub fn position_hash(board: &CrownfallBoardState, next_player: CrownfallPlayerKind) -> (r: u32)
    ensures
        r == spec_position_hash(board@, next_player),
{
    let cells = board.cells();
    proof {
        board.lemma_len();
    }
    let mut hash: u32 = 0;
    let mut index: usize = 0;
    while index < cells.len()
        invariant
            cells@ == board@,
            cells@.len() <= 81,
            index <= cells@.len(),
            hash == spec_cells_hash(board@, index as int),
        decreases cells@.len() - index,
    {
        hash = hash ^ cell_key(index, cells[index]);
        index = index + 1;
    }
    match next_player {
        CrownfallPlayerKind::Black => hash ^ side_to_move_toggle(),
        CrownfallPlayerKind::White => hash ^ 0,
    }
}

} // verus!
