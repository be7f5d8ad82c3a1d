//! The deterministic coordinate hash that yields an offset for a position.
use vstd::prelude::*;
use crate::geometry::{Offset, Position};

verus! {

/// Multiplier applied to the x coordinate (32-bit, wrapping).
pub const X_MULT: i32 = 0x2fc20f;

/// Multiplier applied to the z coordinate (32-bit, wrapping).
pub const Z_MULT: i32 = 0x6ebfff5;

/// Quadratic multiplier of the seed scramble (64-bit, wrapping).
pub const LCG_MULT: i64 = 0x285b825;

/// Linear multiplier of the seed scramble (64-bit, wrapping).
pub const LCG_ADDEND: i64 = 11;

/// The two generations of the hash.
#[derive(Clone, Copy, Debug, PartialEq, Eq, Structural)]
pub enum GeneratorVersion {
    /// The hash reads all three coordinates.
    Legacy,
    /// The hash ignores the vertical coordinate (reads it as zero).
    Later,
}

/// The 64-bit seed of a coordinate triple:
/// `s = (x * X_MULT) ^ (z * Z_MULT) ^ y` with the products taken in `i32`,
/// then `s * s * LCG_MULT + s * LCG_ADDEND`, all wrapping.
#[verifier::opaque]
pub open spec fn seed_of(x: i32, y: i32, z: i32) -> i64 {
    let s: i64 = (x.wrapping_mul(X_MULT) as i64) ^ (z.wrapping_mul(Z_MULT) as i64) ^ (y as i64);
    s.wrapping_mul(s).wrapping_mul(LCG_MULT).wrapping_add(s.wrapping_mul(LCG_ADDEND))
}

/// The four bits of `seed` from bit `shift` upwards, as an unsigned value `0..16`.
pub open spec fn nibble(seed: i64, shift: u32) -> int {
    ((seed >> shift) & 15) as int
}

/// A four-bit value read as a two's-complement number: `8..16` become `-8..0`.
pub open spec fn signed_nibble(n: int) -> int {
    if n >= 8 {
        n - 16
    } else {
        n
    }
}

/// The offset that a seed selects: bits 16..20, 20..24 and 24..28 as signed nibbles.
pub open spec fn offset_from_seed(seed: i64) -> Offset {
    Offset {
        x: signed_nibble(nibble(seed, 16)) as i8,
        y: signed_nibble(nibble(seed, 20)) as i8,
        z: signed_nibble(nibble(seed, 24)) as i8,
    }
}

/// The vertical coordinate that a version feeds into the hash.
pub open spec fn effective_y(y: i32, version: GeneratorVersion) -> i32 {
    match version {
        GeneratorVersion::Legacy => y,
        GeneratorVersion::Later => 0,
    }
}

/// The offset that the hash yields at `p` under `version`.
pub open spec fn offset_of(p: Position, version: GeneratorVersion) -> Offset {
    offset_from_seed(seed_of(p.x, effective_y(p.y, version), p.z))
}

/// The seed of a coordinate triple (see `seed_of`).
pub fn coord_random(x: i32, y: i32, z: i32) -> (r: i64)
    ensures
        r == seed_of(x, y, z),
{
    reveal(seed_of);
    let s: i64 = (x.wrapping_mul(X_MULT) as i64) ^ (z.wrapping_mul(Z_MULT) as i64) ^ (y as i64);
    s.wrapping_mul(s).wrapping_mul(LCG_MULT).wrapping_add(s.wrapping_mul(LCG_ADDEND))
}

/// Four bits of `seed` from bit `shift`, read as a signed nibble.
fn signed_bits(seed: i64, shift: u32) -> (r: i8)
    requires
        shift == 16 || shift == 20 || shift == 24,
    ensures
        r == signed_nibble(nibble(seed, shift)),
{
    let n: i64 = (seed >> shift) & 15;
    assert(0 <= n < 16) by (bit_vector)
        requires
            n == (seed >> shift) & 15,
    ;
    if n >= 8 {
        (n - 16) as i8
    } else {
        n as i8
    }
}

/// The offset that the hash yields for the coordinates `x`, `y`, `z`.
pub fn grass_offset(x: i32, y: i32, z: i32, version: GeneratorVersion) -> (r: Offset)
    ensures
        r == offset_of(Position { x, y, z }, version),
{
    let seed = match version {
        GeneratorVersion::Legacy => coord_random(x, y, z),
        GeneratorVersion::Later => coord_random(x, 0, z),
    };
    Offset { x: signed_bits(seed, 16), y: signed_bits(seed, 20), z: signed_bits(seed, 24) }
}

/// The offset that the hash yields at `p` under `version`.
pub fn offset_for(p: Position, version: GeneratorVersion) -> (r: Offset)
    ensures
        r == offset_of(p, version),
{
    grass_offset(p.x, p.y, p.z, version)
}

/// Under the later version the vertical coordinate has no effect on the offset.
pub proof fn lemma_later_ignores_y(x: i32, y1: i32, y2: i32, z: i32)
    ensures
        offset_of(Position { x, y: y1, z }, GeneratorVersion::Later) == offset_of(
            Position { x, y: y2, z },
            GeneratorVersion::Later,
        ),
{
}

/// When bits 16..20 of the seed read `0b1000`, the x component is `-8`:
/// the nibble is taken as a signed value, not as `0..16`.
pub proof fn lemma_high_nibble_is_negative(seed: i64)
    requires
        nibble(seed, 16) == 8,
    ensures
        offset_from_seed(seed).x == -8,
{
}

} // verus!
