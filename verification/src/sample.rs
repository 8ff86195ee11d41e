//! Single-precision values as bit patterns, ordered as IEEE-754 orders them.
//!
//! A sample of -2.5 is the pattern `0xc020_0000`.

use vstd::prelude::*;

verus! {

/// The sign bit of a binary32 pattern.
pub const SIGN_BIT: u32 = 0x8000_0000;

/// The pattern of positive infinity; larger magnitudes are NaN.
pub const INFINITY_BITS: u32 = 0x7f80_0000;

/// The pattern of -2.5, the least value a scaled sample takes.
pub const LOWER_LIMIT: u32 = 0xc020_0000;

/// The pattern of 2.5, the greatest value a scaled sample takes.
pub const UPPER_LIMIT: u32 = 0x4020_0000;

/// The pattern without its sign bit.
pub open spec fn magnitude(bits: u32) -> int {
    if bits >= SIGN_BIT {
        bits - SIGN_BIT
    } else {
        bits as int
    }
}

/// Whether the pattern is a NaN.
pub open spec fn is_nan(bits: u32) -> bool {
    magnitude(bits) > INFINITY_BITS
}

/// An integer that orders the non-NaN patterns as their values are ordered;
/// both zeros share the key 0.
pub open spec fn order_key(bits: u32) -> int {
    if bits >= SIGN_BIT {
        -magnitude(bits)
    } else {
        magnitude(bits)
    }
}

/// The comparison `a > b` of the two values: false whenever either is a NaN.
pub open spec fn exceeds(a: u32, b: u32) -> bool {
    !is_nan(a) && !is_nan(b) && order_key(a) > order_key(b)
}

/// Computes [`is_nan`].
pub fn sample_is_nan(bits: u32) -> (r: bool)
    ensures
        r == is_nan(bits),
{
    let mag: u32 = if bits >= SIGN_BIT { bits - SIGN_BIT } else { bits };
    mag > INFINITY_BITS
}

/// Computes [`order_key`].
pub fn sample_key(bits: u32) -> (key: i64)
    ensures
        key == order_key(bits),
{
    if bits >= SIGN_BIT {
        let mag: u32 = bits - SIGN_BIT;
        -(mag as i64)
    } else {
        bits as i64
    }
}

/// Computes [`exceeds`].
pub fn sample_exceeds(a: u32, b: u32) -> (r: bool)
    ensures
        r == exceeds(a, b),
{
    !sample_is_nan(a) && !sample_is_nan(b) && sample_key(a) > sample_key(b)
}

/// The sample limited to the closed range from -2.5 to 2.5. A value inside
/// the range keeps its pattern, the sign of a zero included; a NaN becomes
/// the lower limit.
pub open spec fn clamped(bits: u32) -> u32 {
    if is_nan(bits) || order_key(bits) < order_key(LOWER_LIMIT) {
        LOWER_LIMIT
    } else if order_key(bits) > order_key(UPPER_LIMIT) {
        UPPER_LIMIT
    } else {
        bits
    }
}

/// Limits a raw sample to the range that the network was trained on.
pub fn clamp_sample(bits: u32) -> (r: u32)
    ensures
        r == clamped(bits),
        !is_nan(r),
        order_key(LOWER_LIMIT) <= order_key(r) <= order_key(UPPER_LIMIT),
{
    if sample_is_nan(bits) || sample_exceeds(LOWER_LIMIT, bits) {
        LOWER_LIMIT
    } else if sample_exceeds(bits, UPPER_LIMIT) {
        UPPER_LIMIT
    } else {
        bits
    }
}

/// Limits every sample of a chunk, keeping their order.
pub fn clamp_chunk(chunk: &Vec<u32>) -> (scaled: Vec<u32>)
    ensures
        scaled.len() == chunk.len(),
        forall|i: int| 0 <= i < chunk.len() ==> scaled[i] == clamped(#[trigger] chunk[i]),
{
    let mut scaled: Vec<u32> = Vec::new();
    let mut i: usize = 0;
    while i < chunk.len()
        invariant
            i <= chunk.len(),
            scaled.len() == i,
            forall|k: int| 0 <= k < i ==> scaled[k] == clamped(#[trigger] chunk[k]),
        decreases chunk.len() - i,
    {
        scaled.push(clamp_sample(chunk[i]));
        i += 1;
    }
    scaled
}

} // verus!
