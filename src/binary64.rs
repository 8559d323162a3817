use vstd::prelude::*;

verus! {

/// Bit pattern of the sign bit of a binary64 value.
pub const SIGN_BIT: u64 = 0x8000_0000_0000_0000;

/// Bit pattern of positive infinity; every larger magnitude is a NaN.
pub const INFINITY_BITS: u64 = 0x7FF0_0000_0000_0000;

/// The value's bits without the sign bit.
pub open spec fn magnitude_spec(b: u64) -> int {
    if b >= SIGN_BIT {
        b - SIGN_BIT
    } else {
        b as int
    }
}

/// The value is neither infinite nor a NaN.
pub open spec fn is_finite_spec(b: u64) -> bool {
    magnitude_spec(b) < INFINITY_BITS
}

/// The value is finite and strictly greater than zero.
pub open spec fn is_positive_spec(b: u64) -> bool {
    0 < b < INFINITY_BITS
}

/// An integer that orders finite values as the reals they stand for:
/// the magnitude, negated when the sign bit is set. Both zeros map to 0.
pub open spec fn order_key_spec(b: u64) -> int {
    if b >= SIGN_BIT {
        -magnitude_spec(b)
    } else {
        b as int
    }
}

pub fn is_finite(b: u64) -> (r: bool)
    ensures
        r == is_finite_spec(b),
{
    if b >= SIGN_BIT {
        b - SIGN_BIT < INFINITY_BITS
    } else {
        b < INFINITY_BITS
    }
}

pub fn is_positive(b: u64) -> (r: bool)
    ensures
        r == is_positive_spec(b),
{
    0 < b && b < INFINITY_BITS
}

pub fn order_key(b: u64) -> (r: i64)
    ensures
        r == order_key_spec(b),
{
    if b >= SIGN_BIT {
        -((b - SIGN_BIT) as i64)
    } else {
        b as i64
    }
}

/// The index of the first value that is not finite, if any.
pub fn first_non_finite(values: &Vec<u64>) -> (r: Option<usize>)
    ensures
        match r {
            None => forall|i: int| 0 <= i < values@.len() ==> is_finite_spec(#[trigger] values@[i]),
            Some(k) => k < values@.len() && !is_finite_spec(values@[k as int]) && forall|j: int|
                0 <= j < k ==> is_finite_spec(#[trigger] values@[j]),
        },
{
    let mut i: usize = 0;
    while i < values.len()
        invariant
            i <= values@.len(),
            forall|j: int| 0 <= j < i ==> is_finite_spec(#[trigger] values@[j]),
        decreases values@.len() - i,
    {
        if !is_finite(values[i]) {
            return Some(i);
        }
        i = i + 1;
    }
    None
}

/// The index of the first complex sample, given as the bit patterns of its
/// real and imaginary parts, of which either part is not finite, if any.
pub fn first_non_finite_sample(samples: &Vec<(u64, u64)>) -> (r: Option<usize>)
    ensures
        match r {
            None => forall|i: int|
                0 <= i < samples@.len() ==> is_finite_spec((#[trigger] samples@[i]).0)
                    && is_finite_spec(samples@[i].1),
            Some(k) => {
                &&& k < samples@.len()
                &&& !(is_finite_spec(samples@[k as int].0) && is_finite_spec(samples@[k as int].1))
                &&& forall|j: int|
                    0 <= j < k ==> is_finite_spec((#[trigger] samples@[j]).0) && is_finite_spec(
                        samples@[j].1,
                    )
            },
        },
{
    let mut i: usize = 0;
    while i < samples.len()
        invariant
            i <= samples@.len(),
            forall|j: int|
                0 <= j < i ==> is_finite_spec((#[trigger] samples@[j]).0) && is_finite_spec(
                    samples@[j].1,
                ),
        decreases samples@.len() - i,
    {
        let (re, im) = samples[i];
        if !(is_finite(re) && is_finite(im)) {
            return Some(i);
        }
        i = i + 1;
    }
    None
}

} // verus!
