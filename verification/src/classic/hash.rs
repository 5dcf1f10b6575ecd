//! Position hashing for repetition detection: FNV-1a (64-bit) over a fixed
//! byte encoding of the board and the player to move.
use vstd::prelude::*;
use crate::classic::types::{BoardState, Piece, PlayerKind};

verus! {

pub const FNV_OFFSET_BASIS: u64 = 0xcbf29ce484222325;
pub const FNV_PRIME: u64 = 0x100000001b3;

/// One FNV-1a step: XOR in the byte, then multiply (wrapping).
pub open spec fn spec_fnv_step(h: u64, b: u8) -> u64 {
    vstd::wrapping::u64_specs::wrapping_mul(h ^ (b as u64), FNV_PRIME)
}

/// FNV-1a over `bytes`, starting from the state `h`.
pub open spec fn spec_fnv(h: u64, bytes: Seq<u8>) -> u64
    decreases bytes.len(),
{
    if bytes.len() == 0 {
        h
    } else {
        spec_fnv_step(spec_fnv(h, bytes.drop_last()), bytes.last())
    }
}

/// A running FNV-1a hash.
pub struct Fnv1aHasher(u64);

impl Fnv1aHasher {
    /// The hash of everything written so far.
    pub closed spec fn state(&self) -> u64 {
        self.0
    }

    /// Feeds `bytes` into the hash.
    pub fn write(&mut self, bytes: &[u8])
        ensures
            final(self).state() == spec_fnv(old(self).state(), bytes@),
    {
        let ghost h0 = self.0;
        let mut i: usize = 0;
        while i < bytes.len()
            invariant
                i <= bytes@.len(),
                self.0 == spec_fnv(h0, bytes@.subrange(0, i as int)),
            decreases bytes@.len() - i,
        {
            assert(bytes@.subrange(0, i as int + 1).drop_last() =~= bytes@.subrange(0, i as int));
            self.0 = (self.0 ^ (bytes[i] as u64)).wrapping_mul(FNV_PRIME);
            i = i + 1;
        }
        assert(bytes@.subrange(0, bytes@.len() as int) =~= bytes@);
    }

    pub fn finish(&self) -> (r: u64)
        ensures
            r == self.state(),
    {
        self.0
    }
}

impl Default for Fnv1aHasher {
    /// A hasher at the FNV offset basis.
    fn default() -> (r: Fnv1aHasher)
        ensures
            r.state() == FNV_OFFSET_BASIS,
    {
        Fnv1aHasher(FNV_OFFSET_BASIS)
    }
}

/// A small value as an 8-byte little-endian word.
pub open spec fn spec_word(v: u8) -> Seq<u8> {
    seq![v, 0u8, 0u8, 0u8, 0u8, 0u8, 0u8, 0u8]
}

pub open spec fn spec_player_byte(p: PlayerKind) -> u8 {
    match p {
        PlayerKind::White => 0,
        PlayerKind::Black => 1,
    }
}

pub open spec fn spec_kind_byte(p: Piece) -> u8 {
    match p.kind {
        crate::classic::types::PieceKind::Crown => 0,
        crate::classic::types::PieceKind::Knight => 1,
        crate::classic::types::PieceKind::Spy => 2,
    }
}

/// A cell's encoding: a 0 word for an empty cell; a 1 word, the kind's
/// word and the owner's word for an occupied one.
pub open spec fn spec_cell_bytes(c: Option<Piece>) -> Seq<u8> {
    match c {
        None => spec_word(0),
        Some(p) => spec_word(1) + spec_word(spec_kind_byte(p)) + spec_word(spec_player_byte(p.player)),
    }
}

pub open spec fn spec_cells_bytes(cells: Seq<Option<Piece>>, n: int) -> Seq<u8>
    decreases n,
{
    if n <= 0 {
        Seq::empty()
    } else {
        spec_cells_bytes(cells, n - 1) + spec_cell_bytes(cells[n - 1])
    }
}

/// The encoding of a position: the cell count's word, every cell in index
/// order, then the word of the player to move.
pub open spec fn spec_position_bytes(cells: Seq<Option<Piece>>, next: PlayerKind) -> Seq<u8> {
    spec_word(cells.len() as u8) + spec_cells_bytes(cells, cells.len() as int) + spec_word(spec_player_byte(next))
}

pub open spec fn spec_position_hash(cells: Seq<Option<Piece>>, next: PlayerKind) -> u64 {
    spec_fnv(FNV_OFFSET_BASIS, spec_position_bytes(cells, next))
}

fn push_word(out: &mut Vec<u8>, v: u8)
    ensures
        final(out)@ == old(out)@ + spec_word(v),
{
    out.push(v);
    let mut k: usize = 0;
    while k < 7
        invariant
            k <= 7,
            out@ == old(out)@ + spec_word(v).subrange(0, k as int + 1),
        decreases 7 - k,
    {
        out.push(0u8);
        k = k + 1;
    }
    assert(spec_word(v).subrange(0, 8) =~= spec_word(v));
}

fn player_byte(p: PlayerKind) -> (r: u8)
    ensures
        r == spec_player_byte(p),
{
    match p {
        PlayerKind::White => 0,
        PlayerKind::Black => 1,
    }
}

/// The hash of a position (board + player to move).
pub fn position_hash(board: &BoardState, next_player: PlayerKind) -> (r: u64)
    ensures
        r == spec_position_hash(board@, next_player),
{
    let mut bytes: Vec<u8> = Vec::new();
    push_word(&mut bytes, 49);
    let mut i: usize = 0;
    while i < 49
        invariant
            i <= 49,
            board@.len() == 49,
            bytes@ == spec_word(49) + spec_cells_bytes(board@, i as int),
        decreases 49 - i,
    {
        let ghost before = bytes@;
        match board.cells[i] {
            None => {
                push_word(&mut bytes, 0);
            },
            Some(p) => {
                push_word(&mut bytes, 1);
                let k: u8 = match p.kind {
                    crate::classic::types::PieceKind::Crown => 0,
                    crate::classic::types::PieceKind::Knight => 1,
                    crate::classic::types::PieceKind::Spy => 2,
                };
                push_word(&mut bytes, k);
                push_word(&mut bytes, player_byte(p.player));
            },
        }
        assert(bytes@ =~= spec_word(49) + spec_cells_bytes(board@, i as int + 1));
        i = i + 1;
    }
    push_word(&mut bytes, player_byte(next_player));
    assert(bytes@ =~= spec_position_bytes(board@, next_player));
    let mut hasher = Fnv1aHasher::default();
    hasher.write(bytes.as_slice());
    hasher.finish()
}

} // verus!
