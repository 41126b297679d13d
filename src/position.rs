//! Packing of a chunk-local voxel position `(x, y, z)`, each below 64, into one key:
//! the column index `x + 64 z` in the low 12 bits and the height `y` above them.
use vstd::prelude::*;

verus! {

/// Number of columns in a chunk.
pub const COLUMNS: usize = 4096;

/// The position is inside a chunk.
pub open spec fn in_chunk(p: [u8; 3]) -> bool {
    p[0] < 64 && p[1] < 64 && p[2] < 64
}

/// Index of the column at `(x, z)`.
pub open spec fn column_index(x: int, z: int) -> int {
    x + 64 * z
}

/// The key of a position.
pub open spec fn key_of(p: [u8; 3]) -> int {
    p[1] * 4096 + column_index(p[0] as int, p[2] as int)
}

/// The position that a key stands for.
pub open spec fn position_of(key: int) -> [u8; 3] {
    [((key % 4096) % 64) as u8, (key / 4096) as u8, ((key % 4096) / 64) as u8]
}

/// The height part of a key.
pub fn extract_height(p: u32) -> (r: u8)
    requires
        p < 64 * 4096,
    ensures
        r == p / 4096,
{
    assert((p >> 12u32) == p / 4096 && p / 4096 < 64) by (bit_vector)
        requires
            p < 64 * 4096,
    ;
    (p >> 12) as u8
}

/// The column part of a key.
pub fn extract_grid_index(p: u32) -> (r: u32)
    ensures
        r == p % 4096,
{
    assert(p & 0xfffu32 == p % 4096) by (bit_vector);
    p & 0xfff
}

/// The key of a position inside a chunk.
pub fn linearize_position(index: [u8; 3]) -> (r: u32)
    requires
        in_chunk(index),
    ensures
        r == key_of(index),
        r < 64 * 4096,
{
    let x = index[0] as u32;
    let y = index[1] as u32;
    let z = index[2] as u32;
    let grid_index = x + z * 64;
    assert(((y << 12u32) | grid_index) == y * 4096 + grid_index) by (bit_vector)
        requires
            y < 64,
            grid_index < 4096,
    ;
    (y << 12) | grid_index
}

/// The position that a key stands for.
pub fn delinearize_position(position: u32) -> (r: [u8; 3])
    requires
        position < 64 * 4096,
    ensures
        r == position_of(position as int),
        in_chunk(r),
{
    let height = extract_height(position);
    let grid_index = extract_grid_index(position);
    let x = (grid_index % 64) as u8;
    let z = (grid_index / 64) as u8;
    [x, height, z]
}

/// Unpacking the key of a position gives the position back.
pub proof fn lemma_position_round_trip(p: [u8; 3])
    requires
        in_chunk(p),
    ensures
        position_of(key_of(p)) == p,
{
    let x = p[0] as int;
    let y = p[1] as int;
    let z = p[2] as int;
    let key = key_of(p);
    assert(key / 4096 == y && key % 4096 == x + 64 * z) by (nonlinear_arith)
        requires
            key == y * 4096 + x + 64 * z,
            0 <= x < 64,
            0 <= y < 64,
            0 <= z < 64,
    ;
    assert((x + 64 * z) % 64 == x && (x + 64 * z) / 64 == z) by (nonlinear_arith)
        requires
            0 <= x < 64,
            0 <= z < 64,
    ;
    assert(position_of(key) =~= p);
}

} // verus!
