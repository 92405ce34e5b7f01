//! Bit-field layout descriptions and the bit arithmetic behind them.
//!
//! A register is a 32-bit word; a field is a named sub-range of its bits.
//! Field values travel as plain unsigned integers: a named enumerant and a
//! raw integer that resolve to the same bit pattern are the same value.

use vstd::prelude::*;

verus! {

/// A sub-range of bits within a 32-bit register: `width` bits starting at
/// bit `offset` (least significant bit of the field first).
#[derive(Clone, Copy, Debug, PartialEq, Eq, Structural)]
pub struct Field {
    pub offset: u32,
    pub width: u32,
}

/// The `w` low bits set, as a 32-bit mask.
pub open spec fn low_mask(w: u32) -> u32 {
    if w == 0 {
        0u32
    } else {
        0xffff_ffffu32 >> ((32 - w) as u32)
    }
}

/// `x` fits in a field `w` bits wide.
pub open spec fn fits(x: u32, w: u32) -> bool {
    x & low_mask(w) == x
}

/// The unsigned integer formed by the `w` bits of `v` starting at `off`.
pub open spec fn bits_get(v: u32, off: u32, w: u32) -> u32 {
    (v >> off) & low_mask(w)
}

/// `v` with the `w` bits starting at `off` replaced by the low `w` bits
/// of `x`; all other bits unchanged.
pub open spec fn bits_set(v: u32, off: u32, w: u32, x: u32) -> u32 {
    (v & !(low_mask(w) << off)) | ((x & low_mask(w)) << off)
}

impl Field {
    /// A meaningful layout: at least one bit, and the whole range inside
    /// the 32-bit register.
    pub open spec fn wf(self) -> bool {
        1 <= self.width && self.offset + self.width <= 32
    }

    /// The register-wide mask covering exactly this field's bits.
    pub open spec fn mask(self) -> u32 {
        low_mask(self.width) << self.offset
    }

    /// Runtime check of [`Field::wf`].
    pub fn is_wf(&self) -> (r: bool)
        ensures
            r == self.wf(),
    {
        1 <= self.width && self.offset as u64 + self.width as u64 <= 32
    }

    /// Computes [`Field::mask`].
    pub fn mask_value(&self) -> (r: u32)
        requires
            self.wf(),
        ensures
            r == self.mask(),
    {
        (0xffff_ffffu32 >> (32 - self.width)) << self.offset
    }
}

/// The value read from `f`'s bits of the register value `v`.
pub open spec fn field_get(v: u32, f: Field) -> u32 {
    bits_get(v, f.offset, f.width)
}

/// `v` with `f`'s bits replaced by `x`; all other bits unchanged.
pub open spec fn field_set(v: u32, f: Field, x: u32) -> u32 {
    bits_set(v, f.offset, f.width, x)
}

/// Computes [`fits`]: whether `x` can be written to a field `w` bits wide
/// without truncation.
pub fn value_fits(x: u32, w: u32) -> (r: bool)
    requires
        1 <= w <= 32,
    ensures
        r == fits(x, w),
{
    x & (0xffff_ffffu32 >> (32 - w)) == x
}

/// Computes [`field_get`].
pub fn get_bits(v: u32, f: Field) -> (r: u32)
    requires
        f.wf(),
    ensures
        r == field_get(v, f),
{
    (v >> f.offset) & (0xffff_ffffu32 >> (32 - f.width))
}

/// Computes [`field_set`].
pub fn set_bits(v: u32, f: Field, x: u32) -> (r: u32)
    requires
        f.wf(),
        fits(x, f.width),
    ensures
        r == field_set(v, f, x),
{
    (v & !f.mask_value()) | (x << f.offset)
}

/// Writing a value that fits and reading it back returns the same value,
/// for every register value, well-formed field and fitting value.
pub proof fn lemma_bits_round_trip(v: u32, off: u32, w: u32, x: u32)
    requires
        1 <= w,
        off + w <= 32,
        fits(x, w),
    ensures
        bits_get(bits_set(v, off, w, x), off, w) == x,
{
    assert(bits_get(bits_set(v, off, w, x), off, w) == x) by (bit_vector)
        requires
            1 <= w,
            off + w <= 32,
            x & low_mask(w) == x,
    ;
}

/// Field-level form of [`lemma_bits_round_trip`]: `field_get` after
/// `field_set` returns the written value.
pub proof fn lemma_field_round_trip(v: u32, f: Field, x: u32)
    requires
        f.wf(),
        fits(x, f.width),
    ensures
        field_get(field_set(v, f, x), f) == x,
{
    lemma_bits_round_trip(v, f.offset, f.width, x);
}

} // verus!
