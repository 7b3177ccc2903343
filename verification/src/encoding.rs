//! Fixed-point encoding of positions and velocities as field elements.

use crate::movement_trace::InputFlags;
use crate::simulation::{Velocity, MOVEMENT_SPEED};
use vstd::prelude::*;

verus! {

/// Encoded position units in one position unit.
pub const POSITION_FACTOR: i64 = 1000;

/// Added to a scaled position so that its encoding is not negative.
pub const POSITION_BIAS: i64 = 50_000_000;

/// Encoded positions lie below this bound.
pub const POSITION_RANGE: i64 = 100_000_000;

/// Added to a velocity so that its encoding is not negative.
pub const VELOCITY_BIAS: i64 = 1000;

/// Encoded velocities lie below this bound.
pub const VELOCITY_RANGE: i64 = 2000;

/// The position can be encoded: scaled, it is smaller in magnitude than
/// half the encoding range.
pub open spec fn position_in_bound(p: int) -> bool {
    -POSITION_BIAS < p * POSITION_FACTOR < POSITION_BIAS
}

/// The encoding of a position within the bound.
pub open spec fn encode_position_spec(p: int) -> int {
    p * POSITION_FACTOR + POSITION_BIAS
}

/// The position that `e` encodes, if any does.
pub open spec fn decode_position_spec(e: int) -> Option<int> {
    if 0 < e < POSITION_RANGE && (e - POSITION_BIAS) % (POSITION_FACTOR as int) == 0 {
        Some((e - POSITION_BIAS) / (POSITION_FACTOR as int))
    } else {
        None
    }
}

/// The velocity can be encoded.
pub open spec fn velocity_in_bound(v: int) -> bool {
    -VELOCITY_BIAS <= v < VELOCITY_RANGE - VELOCITY_BIAS
}

/// The encoding of a velocity within the bound.
pub open spec fn encode_velocity_spec(v: int) -> int {
    v + VELOCITY_BIAS
}

/// The encoding of a flag.
pub open spec fn encode_flag_spec(flag: bool) -> int {
    if flag {
        1
    } else {
        0
    }
}

/// Encodes a position, or `None` where it lies outside the bound.
pub fn encode_position(p: i32) -> (e: Option<u64>)
    ensures
        position_in_bound(p as int) ==> e == Some(encode_position_spec(p as int) as u64),
        !position_in_bound(p as int) ==> e is None,
        e is Some ==> 0 < e.unwrap() < POSITION_RANGE,
{
    let scaled: i64 = (p as i64) * POSITION_FACTOR;
    if -POSITION_BIAS < scaled && scaled < POSITION_BIAS {
        Some((scaled + POSITION_BIAS) as u64)
    } else {
        None
    }
}

/// Decodes an encoded position, or `None` where `e` encodes none.
pub fn decode_position(e: u64) -> (p: Option<i32>)
    ensures
        match p {
            Some(p) => decode_position_spec(e as int) == Some(p as int),
            None => decode_position_spec(e as int) is None,
        },
{
    if 0 < e && e < POSITION_RANGE as u64 {
        let centred: i64 = e as i64 - POSITION_BIAS;
        if centred % POSITION_FACTOR == 0 {
            return Some((centred / POSITION_FACTOR) as i32);
        }
    }
    None
}

/// Encodes a velocity, or `None` where it lies outside the bound.
pub fn encode_velocity(v: i32) -> (e: Option<u64>)
    ensures
        velocity_in_bound(v as int) ==> e == Some(encode_velocity_spec(v as int) as u64),
        !velocity_in_bound(v as int) ==> e is None,
        e is Some ==> 0 <= e.unwrap() < VELOCITY_RANGE,
{
    let v: i64 = v as i64;
    if -VELOCITY_BIAS <= v && v < VELOCITY_RANGE - VELOCITY_BIAS {
        Some((v + VELOCITY_BIAS) as u64)
    } else {
        None
    }
}

/// Encodes a flag as 1 or 0.
pub fn encode_flag(flag: bool) -> (e: u64)
    ensures
        e == encode_flag_spec(flag),
{
    if flag {
        1
    } else {
        0
    }
}

/// Decoding undoes encoding on every position within the bound.
pub proof fn lemma_decode_inverts_encode(p: int)
    requires
        position_in_bound(p),
    ensures
        decode_position_spec(encode_position_spec(p)) == Some(p),
{
    let e = encode_position_spec(p);
    assert((p * 1000) % 1000 == 0 && (p * 1000) / 1000 == p) by (nonlinear_arith);
}

/// Only an encoding decodes: what decodes to `p` is the encoding of `p`,
/// and `p` lies within the bound.
pub proof fn lemma_decode_only_encodings(e: int, p: int)
    requires
        decode_position_spec(e) == Some(p),
    ensures
        position_in_bound(p),
        encode_position_spec(p) == e,
{
    let c = e - POSITION_BIAS;
    assert(c == 1000 * (c / 1000) + c % 1000) by (nonlinear_arith);
}

/// Distinct positions within the bound have distinct encodings.
pub proof fn lemma_encoding_is_injective(p: int, q: int)
    requires
        position_in_bound(p),
        position_in_bound(q),
        encode_position_spec(p) == encode_position_spec(q),
    ensures
        p == q,
{
    lemma_decode_inverts_encode(p);
    lemma_decode_inverts_encode(q);
}

/// The velocity that the flags alone account for.
pub open spec fn expected_velocity_spec(inputs: InputFlags) -> Velocity {
    Velocity {
        x: ((encode_flag_spec(inputs.right) - encode_flag_spec(inputs.left)) * MOVEMENT_SPEED) as i32,
        y: ((encode_flag_spec(inputs.up) - encode_flag_spec(inputs.down)) * MOVEMENT_SPEED) as i32,
    }
}

/// The velocity that flags account for. It depends on nothing but the
/// flags of the same tick.
pub fn expected_velocity(inputs: InputFlags) -> (v: Velocity)
    ensures
        v == expected_velocity_spec(inputs),
{
    let right: i32 = if inputs.right { 1 } else { 0 };
    let left: i32 = if inputs.left { 1 } else { 0 };
    let up: i32 = if inputs.up { 1 } else { 0 };
    let down: i32 = if inputs.down { 1 } else { 0 };
    Velocity { x: (right - left) * MOVEMENT_SPEED, y: (up - down) * MOVEMENT_SPEED }
}

} // verus!
