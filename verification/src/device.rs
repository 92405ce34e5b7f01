//! The register access layer: typed, named-field access to a peripheral's
//! register block.
//!
//! A [`RegisterBlock`] holds one 32-bit value per register together with
//! its description: the documented power-on reset value and whether the
//! hardware applies set/clear requests to it atomically per bit
//! ([`RegisterKind::AtomicEffect`]) or whether a field update needs a
//! read-modify-write of the whole register
//! ([`RegisterKind::ReadModifyWrite`]).
//!
//! The distinction decides which call sites are safe to leave
//! unsynchronized across a foreground context and interrupt contexts:
//! plain reads and [`RegisterBlock::atomic_set_clear`] always are; `write`
//! and every modify-shaped operation are safe only for a single writer.

use vstd::prelude::*;

verus! {

use crate::AccessError;
use crate::field::{
    Field, bits_get, bits_set, field_get, field_set, fits, get_bits, low_mask, set_bits,
    value_fits,
};

/// How a register behaves under concurrent stores.
#[derive(Clone, Copy, Debug, PartialEq, Eq, Structural)]
pub enum RegisterKind {
    /// Writing a subset of bits (set some, clear others) cannot be lost
    /// even if two contexts write different bits concurrently: the
    /// hardware applies each requested per-bit transition independently.
    AtomicEffect,
    /// A field update requires reading the whole register, mutating the
    /// field, and writing back; two contexts doing this concurrently on
    /// the same register can silently drop one side's update even when
    /// they touch different fields.
    ReadModifyWrite,
}

/// The description a peripheral-specific collaborator supplies for one
/// register: its documented power-on reset value and its concurrency
/// class.
#[derive(Clone, Copy, Debug, PartialEq, Eq, Structural)]
pub struct RegisterDesc {
    pub reset_value: u32,
    pub kind: RegisterKind,
}

/// One field update of a read-modify-write: set `field` to `value`.
/// The value may come from a named enumerant table or be a raw integer;
/// both resolve to the same bit pattern.
#[derive(Clone, Copy, Debug, PartialEq, Eq, Structural)]
pub struct FieldWrite {
    pub field: Field,
    pub value: u32,
}

/// Every named field in `ws` has a meaningful layout.
pub open spec fn writes_wf(ws: Seq<FieldWrite>) -> bool {
    forall|i: int| 0 <= i < ws.len() ==> (#[trigger] ws[i]).field.wf()
}

/// Every value in `ws` fits its field's width.
pub open spec fn writes_fit(ws: Seq<FieldWrite>) -> bool {
    forall|i: int| 0 <= i < ws.len() ==> fits((#[trigger] ws[i]).value, ws[i].field.width)
}

/// The register value after applying the field updates of `ws` in order,
/// front first.
pub open spec fn apply_writes(v: u32, ws: Seq<FieldWrite>) -> u32
    decreases ws.len(),
{
    if ws.len() == 0 {
        v
    } else {
        apply_writes(field_set(v, ws[0].field, ws[0].value), ws.skip(1))
    }
}

/// The union of the masks of the fields in `fs`.
pub open spec fn fields_mask(fs: Seq<Field>) -> u32
    decreases fs.len(),
{
    if fs.len() == 0 {
        0u32
    } else {
        fs[0].mask() | fields_mask(fs.skip(1))
    }
}

/// Every field in `fs` has a meaningful layout.
pub open spec fn fields_wf(fs: Seq<Field>) -> bool {
    forall|i: int| 0 <= i < fs.len() ==> (#[trigger] fs[i]).wf()
}

/// The effect of one atomic set/clear store: the bits of `set_m` are
/// driven to 1 and the bits of `clear_m` to 0, each independently of what
/// any other store requests on other bits.
pub open spec fn set_clear(v: u32, set_m: u32, clear_m: u32) -> u32 {
    (v | set_m) & !clear_m
}

/// The register value after restoring each field of `fs`, in order, to
/// its slice of the documented reset value `reset`.
pub open spec fn apply_reset(v: u32, reset: u32, fs: Seq<Field>) -> u32
    decreases fs.len(),
{
    if fs.len() == 0 {
        v
    } else {
        apply_reset(field_set(v, fs[0], field_get(reset, fs[0])), reset, fs.skip(1))
    }
}

/// A peripheral's register block: current values plus descriptions, one
/// entry per register, indexed by register number.
pub struct RegisterBlock {
    descs: Vec<RegisterDesc>,
    vals: Vec<u32>,
}

impl RegisterBlock {
    /// The register descriptions, by register index.
    pub closed spec fn descs_seq(self) -> Seq<RegisterDesc> {
        self.descs@
    }

    /// The current register values, by register index.
    pub closed spec fn vals_seq(self) -> Seq<u32> {
        self.vals@
    }

    /// One value per described register.
    pub open spec fn wf(self) -> bool {
        self.vals_seq().len() == self.descs_seq().len()
    }

    /// The number of registers in the block.
    pub open spec fn num_regs(self) -> nat {
        self.descs_seq().len()
    }

    /// The current value of register `r`.
    pub open spec fn value_at(self, r: int) -> u32 {
        self.vals_seq()[r]
    }

    /// The description of register `r`.
    pub open spec fn desc_at(self, r: int) -> RegisterDesc {
        self.descs_seq()[r]
    }

    /// Builds the block in its power-on state: every register holds its
    /// documented reset value.
    pub fn new(descs: Vec<RegisterDesc>) -> (r: RegisterBlock)
        ensures
            r.wf(),
            r.descs_seq() == descs@,
            forall|i: int| 0 <= i < descs@.len() ==> r.value_at(i) == descs@[i].reset_value,
    {
        let mut vals: Vec<u32> = Vec::new();
        let mut i: usize = 0;
        while i < descs.len()
            invariant
                i <= descs@.len(),
                vals@.len() == i,
                forall|j: int| 0 <= j < i ==> vals@[j] == descs@[j].reset_value,
            decreases descs@.len() - i,
        {
            vals.push(descs[i].reset_value);
            i = i + 1;
        }
        RegisterBlock { descs, vals }
    }

    /// The number of registers.
    pub fn num_registers(&self) -> (r: usize)
        ensures
            r == self.num_regs(),
    {
        self.descs.len()
    }

    /// The concurrency class of register `r`.
    pub fn kind(&self, r: usize) -> (k: RegisterKind)
        requires
            r < self.num_regs(),
        ensures
            k == self.desc_at(r as int).kind,
    {
        self.descs[r].kind
    }

    /// The documented power-on reset value of register `r`.
    pub fn reset_value(&self, r: usize) -> (v: u32)
        requires
            r < self.num_regs(),
        ensures
            v == self.desc_at(r as int).reset_value,
    {
        self.descs[r].reset_value
    }

    /// Whole-register load. A pure load of a single aligned word: safe to
    /// call from any context regardless of concurrent readers, and never
    /// observes a torn value.
    pub fn read(&self, r: usize) -> (v: u32)
        requires
            self.wf(),
            r < self.num_regs(),
        ensures
            v == self.value_at(r as int),
    {
        self.vals[r]
    }

    /// Named-field load: the unsigned integer formed by the field's bits,
    /// least significant bit of the field first. As safe as [`Self::read`].
    pub fn read_field(&self, r: usize, f: Field) -> (v: u32)
        requires
            self.wf(),
            r < self.num_regs(),
            f.wf(),
        ensures
            v == field_get(self.value_at(r as int), f),
    {
        get_bits(self.vals[r], f)
    }

    /// Whole-register store; last writer wins. Safe across contexts only
    /// if at most one context ever writes this register, or if the value
    /// encodes only atomic-effect set/clear pairs.
    pub fn write(&mut self, r: usize, v: u32)
        requires
            old(self).wf(),
            r < old(self).num_regs(),
        ensures
            final(self).wf(),
            final(self).descs_seq() == old(self).descs_seq(),
            final(self).vals_seq() == old(self).vals_seq().update(r as int, v),
    {
        self.vals.set(r, v);
    }

    /// Field-level read-modify-write: sets field `f` to `x`, leaving the
    /// register's other bits unchanged. Rejects a value wider than the
    /// field. Safe only when no other context can `write` or modify the
    /// same register concurrently — the caller, not this layer, carries
    /// that obligation, documented per register.
    pub fn write_field(&mut self, r: usize, f: Field, x: u32) -> (res: Result<(), AccessError>)
        requires
            old(self).wf(),
            r < old(self).num_regs(),
            f.wf(),
        ensures
            final(self).wf(),
            final(self).descs_seq() == old(self).descs_seq(),
            fits(x, f.width) ==> res is Ok && final(self).vals_seq() == old(self).vals_seq()
                .update(r as int, field_set(old(self).value_at(r as int), f, x)),
            !fits(x, f.width) ==> res == Err::<(), AccessError>(AccessError::InvalidFieldValue)
                && final(self).vals_seq() == old(self).vals_seq(),
    {
        if value_fits(x, f.width) {
            let cur = self.vals[r];
            self.vals.set(r, set_bits(cur, f, x));
            Ok(())
        } else {
            Err(AccessError::InvalidFieldValue)
        }
    }

    /// Whole-register read-modify-write through a caller-supplied
    /// function of the current value. Defined to be safe only when no
    /// other context can `write` or modify the same register
    /// concurrently.
    pub fn modify<F: Fn(u32) -> u32>(&mut self, r: usize, f: F)
        requires
            old(self).wf(),
            r < old(self).num_regs(),
            forall|v: u32| f.requires((v,)),
        ensures
            final(self).wf(),
            final(self).descs_seq() == old(self).descs_seq(),
            final(self).vals_seq() == old(self).vals_seq()
                .update(r as int, final(self).value_at(r as int)),
            f.ensures((old(self).value_at(r as int),), final(self).value_at(r as int)),
    {
        let cur = self.vals[r];
        let newv = f(cur);
        self.vals.set(r, newv);
    }

    /// Several field updates in one read-modify-write of register `r`,
    /// applied in order. Rejects the whole update (register untouched) if
    /// any value is wider than its field. Concurrent `modify_fields`
    /// calls on different fields of the same register still race: this is
    /// sugar over a whole-register read-modify-write, with the same
    /// single-writer caveat.
    pub fn modify_fields(&mut self, r: usize, updates: &Vec<FieldWrite>) -> (res: Result<
        (),
        AccessError,
    >)
        requires
            old(self).wf(),
            r < old(self).num_regs(),
            writes_wf(updates@),
        ensures
            final(self).wf(),
            final(self).descs_seq() == old(self).descs_seq(),
            writes_fit(updates@) ==> res is Ok && final(self).vals_seq() == old(self).vals_seq()
                .update(r as int, apply_writes(old(self).value_at(r as int), updates@)),
            !writes_fit(updates@) ==> res == Err::<(), AccessError>(
                AccessError::InvalidFieldValue,
            ) && final(self).vals_seq() == old(self).vals_seq(),
    {
        let mut i: usize = 0;
        while i < updates.len()
            invariant
                self == old(self),
                old(self).wf(),
                i <= updates@.len(),
                writes_wf(updates@),
                forall|j: int| 0 <= j < i
                    ==> fits((#[trigger] updates@[j]).value, updates@[j].field.width),
            decreases updates@.len() - i,
        {
            let w = updates[i];
            if !value_fits(w.value, w.field.width) {
                return Err(AccessError::InvalidFieldValue);
            }
            i = i + 1;
        }
        let orig = self.vals[r];
        let mut acc: u32 = orig;
        let mut k: usize = 0;
        proof {
            assert(updates@.skip(0) =~= updates@);
        }
        while k < updates.len()
            invariant
                k <= updates@.len(),
                writes_wf(updates@),
                forall|j: int| 0 <= j < updates@.len()
                    ==> fits((#[trigger] updates@[j]).value, updates@[j].field.width),
                apply_writes(orig, updates@) == apply_writes(acc, updates@.skip(k as int)),
            decreases updates@.len() - k,
        {
            let w = updates[k];
            proof {
                assert(updates@.skip(k as int).skip(1) =~= updates@.skip(k as int + 1));
                assert(updates@.skip(k as int)[0] == updates@[k as int]);
            }
            acc = set_bits(acc, w.field, w.value);
            k = k + 1;
        }
        proof {
            assert(updates@.skip(updates@.len() as int) =~= Seq::<FieldWrite>::empty());
        }
        self.vals.set(r, acc);
        Ok(())
    }

    /// Restores the named fields of register `r` to their slices of the
    /// register's documented power-on reset value. Implemented as a
    /// targeted read-modify-write and inherits the same single-writer
    /// caveat.
    pub fn reset_fields(&mut self, r: usize, fs: &Vec<Field>)
        requires
            old(self).wf(),
            r < old(self).num_regs(),
            fields_wf(fs@),
        ensures
            final(self).wf(),
            final(self).descs_seq() == old(self).descs_seq(),
            final(self).vals_seq() == old(self).vals_seq()
                .update(
                r as int,
                apply_reset(
                    old(self).value_at(r as int),
                    old(self).desc_at(r as int).reset_value,
                    fs@,
                ),
            ),
    {
        let reset = self.descs[r].reset_value;
        let orig = self.vals[r];
        let mut acc: u32 = orig;
        let mut k: usize = 0;
        proof {
            assert(fs@.skip(0) =~= fs@);
        }
        while k < fs.len()
            invariant
                k <= fs@.len(),
                fields_wf(fs@),
                apply_reset(orig, reset, fs@) == apply_reset(acc, reset, fs@.skip(k as int)),
            decreases fs@.len() - k,
        {
            let f = fs[k];
            proof {
                assert(fs@.skip(k as int).skip(1) =~= fs@.skip(k as int + 1));
                assert(fs@.skip(k as int)[0] == fs@[k as int]);
                lemma_get_fits(reset, f.offset, f.width);
            }
            acc = set_bits(acc, f, get_bits(reset, f));
            k = k + 1;
        }
        proof {
            assert(fs@.skip(fs@.len() as int) =~= Seq::<Field>::empty());
        }
        self.vals.set(r, acc);
    }

    /// One store to an atomic-effect register requesting set on the bits
    /// of `set_fields` and clear on the bits of `clear_fields`. The
    /// hardware lands each requested per-bit transition independently of
    /// what any concurrent store requests on other bits, so this is the
    /// only register-level operation safe for unsynchronized concurrent
    /// use from two contexts touching disjoint fields of one register.
    pub fn atomic_set_clear(&mut self, r: usize, set_fields: &Vec<Field>, clear_fields: &Vec<
        Field,
    >)
        requires
            old(self).wf(),
            r < old(self).num_regs(),
            old(self).desc_at(r as int).kind is AtomicEffect,
            fields_wf(set_fields@),
            fields_wf(clear_fields@),
            fields_mask(set_fields@) & fields_mask(clear_fields@) == 0,
        ensures
            final(self).wf(),
            final(self).descs_seq() == old(self).descs_seq(),
            final(self).vals_seq() == old(self).vals_seq()
                .update(
                r as int,
                set_clear(
                    old(self).value_at(r as int),
                    fields_mask(set_fields@),
                    fields_mask(clear_fields@),
                ),
            ),
    {
        let sm = mask_of_fields(set_fields);
        let cm = mask_of_fields(clear_fields);
        let cur = self.vals[r];
        self.vals.set(r, (cur | sm) & !cm);
    }
}

/// Computes [`fields_mask`].
pub fn mask_of_fields(fs: &Vec<Field>) -> (m: u32)
    requires
        fields_wf(fs@),
    ensures
        m == fields_mask(fs@),
{
    let mut acc: u32 = 0;
    let mut k: usize = 0;
    proof {
        assert(fs@.skip(0) =~= fs@);
        lemma_or_zero(fields_mask(fs@));
    }
    while k < fs.len()
        invariant
            k <= fs@.len(),
            fields_wf(fs@),
            fields_mask(fs@) == acc | fields_mask(fs@.skip(k as int)),
        decreases fs@.len() - k,
    {
        let f = fs[k];
        proof {
            assert(fs@.skip(k as int).skip(1) =~= fs@.skip(k as int + 1));
            assert(fs@.skip(k as int)[0] == fs@[k as int]);
            lemma_or_rearrange(acc, fs@[k as int].mask(), fields_mask(fs@.skip(k as int + 1)));
        }
        acc = acc | f.mask_value();
        k = k + 1;
    }
    proof {
        assert(fs@.skip(fs@.len() as int) =~= Seq::<Field>::empty());
        lemma_or_zero(acc);
    }
    acc
}

/// The bits a field holds always fit the field's width.
pub proof fn lemma_get_fits(v: u32, off: u32, w: u32)
    ensures
        fits(bits_get(v, off, w), w),
{
    assert(((v >> off) & low_mask(w)) & low_mask(w) == (v >> off) & low_mask(w)) by (bit_vector);
}

/// No two fields of `fs` overlap.
pub open spec fn pairwise_disjoint(fs: Seq<Field>) -> bool {
    forall|i: int, j: int| 0 <= i < fs.len() && 0 <= j < fs.len() && i != j
        ==> #[trigger] fs[i].mask() & #[trigger] fs[j].mask() == 0
}

/// Atomic set/clear independence: two set/clear stores on the same
/// register touching disjoint bits commute — the result is the same in
/// either interleaving order — and neither store's requested transitions
/// are lost: every bit one side asked to set reads 1 and every bit it
/// asked to clear reads 0 in the final value, whatever the other side
/// requested on its own bits.
pub proof fn lemma_atomic_set_clear_independent(v: u32, s1: u32, c1: u32, s2: u32, c2: u32)
    requires
        s1 & c1 == 0,
        s2 & c2 == 0,
        (s1 | c1) & (s2 | c2) == 0,
    ensures
        set_clear(set_clear(v, s1, c1), s2, c2) == set_clear(set_clear(v, s2, c2), s1, c1),
        set_clear(set_clear(v, s1, c1), s2, c2) & s1 == s1,
        set_clear(set_clear(v, s1, c1), s2, c2) & c1 == 0,
        set_clear(set_clear(v, s1, c1), s2, c2) & s2 == s2,
        set_clear(set_clear(v, s1, c1), s2, c2) & c2 == 0,
{
    assert(set_clear(set_clear(v, s1, c1), s2, c2) == set_clear(set_clear(v, s2, c2), s1, c1)
        && set_clear(set_clear(v, s1, c1), s2, c2) & s1 == s1
        && set_clear(set_clear(v, s1, c1), s2, c2) & c1 == 0
        && set_clear(set_clear(v, s1, c1), s2, c2) & s2 == s2
        && set_clear(set_clear(v, s1, c1), s2, c2) & c2 == 0) by (bit_vector)
        requires
            s1 & c1 == 0,
            s2 & c2 == 0,
            (s1 | c1) & (s2 | c2) == 0,
    ;
}

/// Idempotent field round-trip at the register level: when a block came
/// out of a successful `write_field(r, f, x)` — its values are the old
/// ones with register `r` updated to `field_set(.., f, x)`, which is
/// exactly what [`RegisterBlock::write_field`] ensures on a fitting
/// value — then `read_field(r, f)` on it returns exactly `x`, for every
/// register, well-formed field and declared enumerant or raw value `x`.
pub proof fn lemma_register_round_trip(
    pre: RegisterBlock,
    post: RegisterBlock,
    r: int,
    f: Field,
    x: u32,
)
    requires
        pre.wf(),
        0 <= r < pre.num_regs(),
        f.wf(),
        fits(x, f.width),
        post.vals_seq() == pre.vals_seq().update(r, field_set(pre.value_at(r), f, x)),
    ensures
        field_get(post.value_at(r), f) == x,
{
    crate::field::lemma_field_round_trip(pre.value_at(r), f, x);
}

/// Setting one field leaves the bits of any disjoint field unchanged.
pub proof fn lemma_set_preserves_disjoint_field(v: u32, f: Field, g: Field, x: u32)
    requires
        f.wf(),
        g.wf(),
        f.mask() & g.mask() == 0,
    ensures
        field_get(field_set(v, g, x), f) == field_get(v, f),
{
    let off1 = f.offset;
    let w1 = f.width;
    let off2 = g.offset;
    let w2 = g.width;
    assert(bits_get(bits_set(v, off2, w2, x), off1, w1) == bits_get(v, off1, w1)) by (bit_vector)
        requires
            1 <= w1,
            off1 + w1 <= 32,
            1 <= w2,
            off2 + w2 <= 32,
            (low_mask(w1) << off1) & (low_mask(w2) << off2) == 0,
    ;
}

/// Restoring fields all disjoint from `g` leaves `g`'s bits unchanged.
proof fn lemma_apply_reset_preserves(v: u32, reset: u32, fs: Seq<Field>, g: Field)
    requires
        fields_wf(fs),
        g.wf(),
        forall|i: int| 0 <= i < fs.len() ==> g.mask() & (#[trigger] fs[i]).mask() == 0,
    ensures
        field_get(apply_reset(v, reset, fs), g) == field_get(v, g),
    decreases fs.len(),
{
    if fs.len() == 0 {
    } else {
        let v1 = field_set(v, fs[0], field_get(reset, fs[0]));
        lemma_set_preserves_disjoint_field(v, g, fs[0], field_get(reset, fs[0]));
        lemma_apply_reset_preserves(v1, reset, fs.skip(1), g);
    }
}

/// Reset restores documented defaults: after restoring a list of
/// pairwise-disjoint fields, each of them reads exactly its slice of the
/// documented power-on reset value, regardless of the register's prior
/// value.
pub proof fn lemma_reset_restores(v: u32, reset: u32, fs: Seq<Field>, k: int)
    requires
        fields_wf(fs),
        pairwise_disjoint(fs),
        0 <= k < fs.len(),
    ensures
        field_get(apply_reset(v, reset, fs), fs[k]) == field_get(reset, fs[k]),
    decreases fs.len(),
{
    let v1 = field_set(v, fs[0], field_get(reset, fs[0]));
    if k == 0 {
        lemma_get_fits(reset, fs[0].offset, fs[0].width);
        crate::field::lemma_field_round_trip(v, fs[0], field_get(reset, fs[0]));
        lemma_apply_reset_preserves(v1, reset, fs.skip(1), fs[0]);
    } else {
        lemma_reset_restores(v1, reset, fs.skip(1), k - 1);
    }
}

proof fn lemma_or_zero(a: u32)
    ensures
        a | 0 == a,
        0 | a == a,
{
    assert(a | 0 == a && 0 | a == a) by (bit_vector);
}

proof fn lemma_or_rearrange(a: u32, b: u32, c: u32)
    ensures
        a | (b | c) == (a | b) | c,
{
    assert(a | (b | c) == (a | b) | c) by (bit_vector);
}

} // verus!
