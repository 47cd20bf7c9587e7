//! Single-precision values carried as their IEEE-754 bit patterns.
//!
//! Effect parameters are `f32` values. The library keeps each one as the
//! `u32` that `f32::to_bits` gives and compares them by the IEEE-754 rules,
//! which these spec functions state over the bits.
use vstd::prelude::*;

verus! {

/// The bit that carries the sign of an `f32`.
pub const SIGN_BIT: u32 = 0x8000_0000;

/// The bits of positive infinity; every larger magnitude is a NaN.
pub const INFINITY_BITS: u32 = 0x7f80_0000;

/// The magnitude of an `f32`: its bits without the sign bit.
pub open spec fn f32_magnitude(b: u32) -> int {
    (b % SIGN_BIT) as int
}

/// Whether the sign bit is set.
pub open spec fn f32_negative(b: u32) -> bool {
    b >= SIGN_BIT
}

/// Whether the bits encode a NaN.
pub open spec fn f32_is_nan(b: u32) -> bool {
    f32_magnitude(b) > INFINITY_BITS
}

/// Whether the bits encode a finite value (neither NaN nor an infinity).
pub open spec fn f32_is_finite(b: u32) -> bool {
    f32_magnitude(b) < INFINITY_BITS
}

/// An integer that orders the non-NaN values as the reals they stand for:
/// the encoding is monotone in the magnitude, and both zeros map to 0.
pub open spec fn f32_order_key(b: u32) -> int {
    if f32_negative(b) {
        -f32_magnitude(b)
    } else {
        f32_magnitude(b)
    }
}

/// IEEE-754 `a <= b`: false when either side is a NaN.
pub open spec fn f32_le(a: u32, b: u32) -> bool {
    !f32_is_nan(a) && !f32_is_nan(b) && f32_order_key(a) <= f32_order_key(b)
}

/// `(lo..=hi).contains(&v)` on `f32` values.
pub open spec fn f32_in_range(v: u32, lo: u32, hi: u32) -> bool {
    f32_le(lo, v) && f32_le(v, hi)
}

/// Whether `f32::is_finite` holds of the value with bits `b`.
pub fn bits_is_finite(b: u32) -> (r: bool)
    ensures
        r == f32_is_finite(b),
{
    b % SIGN_BIT < INFINITY_BITS
}

/// Whether `f32::is_nan` holds of the value with bits `b`.
pub fn bits_is_nan(b: u32) -> (r: bool)
    ensures
        r == f32_is_nan(b),
{
    b % SIGN_BIT > INFINITY_BITS
}

/// IEEE-754 `a <= b` computed on the bits.
pub fn bits_le(a: u32, b: u32) -> (r: bool)
    ensures
        r == f32_le(a, b),
{
    if bits_is_nan(a) || bits_is_nan(b) {
        return false;
    }
    let ma = a % SIGN_BIT;
    let mb = b % SIGN_BIT;
    let na = a >= SIGN_BIT;
    let nb = b >= SIGN_BIT;
    if na && nb {
        mb <= ma
    } else if na {
        true
    } else if nb {
        ma == 0 && mb == 0
    } else {
        ma <= mb
    }
}

/// `(lo..=hi).contains(&v)` computed on the bits.
pub fn bits_in_range(v: u32, lo: u32, hi: u32) -> (r: bool)
    ensures
        r == f32_in_range(v, lo, hi),
{
    bits_le(lo, v) && bits_le(v, hi)
}

/// The view of what a number decoder returns: the bits, or the message.
pub open spec fn decoded_view(r: Result<u32, String>) -> Result<u32, Seq<char>> {
    match r {
        Ok(b) => Ok(b),
        Err(m) => Err(m@),
    }
}

/// The decoder `f` turns text into `f32` bits as the function `dec` does:
/// every result it can return for a text is `dec` of that text.
pub open spec fn decodes_as<F: Fn(&str) -> Result<u32, String>>(
    f: F,
    dec: spec_fn(Seq<char>) -> Result<u32, Seq<char>>,
) -> bool {
    forall|t: &str, r: Result<u32, String>|
        #[trigger] call_ensures(f, (t,), r) ==> decoded_view(r) == dec(t@)
}

/// The decoder `f` accepts every text.
pub open spec fn decoder_total<F: Fn(&str) -> Result<u32, String>>(f: F) -> bool {
    forall|t: &str| #[trigger] f.requires((t,))
}

/// The formatter `g` writes `f32` bits as the function `disp` does.
pub open spec fn shows_as<G: Fn(u32) -> String>(g: G, disp: spec_fn(u32) -> Seq<char>) -> bool {
    forall|b: u32, s: String| #[trigger] call_ensures(g, (b,), s) ==> s@ == disp(b)
}

/// The formatter `g` accepts every value.
pub open spec fn formatter_total<G: Fn(u32) -> String>(g: G) -> bool {
    forall|b: u32| #[trigger] g.requires((b,))
}

} // verus!
