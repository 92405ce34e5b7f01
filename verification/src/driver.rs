//! Verified context logic built from the two layers: what a timer
//! interrupt handler and a foreground LED loop do to the registers, with
//! the decisions proved and only the waiting left to the caller.
//!
//! Both contexts touch the same output register, so every store they
//! share goes through the atomic set/clear path; the handler's own timer
//! register is protected by acquire/release instead.

use vstd::prelude::*;

verus! {

use crate::device::{RegisterBlock, set_clear};
use crate::field::{Field, field_get, field_set, fits, low_mask};
use crate::registry::Registry;

/// `0` fits every field.
proof fn lemma_fits_zero(w: u32)
    ensures
        fits(0u32, w),
{
    assert(0u32 & low_mask(w) == 0u32) by (bit_vector);
}

/// Bitwise facts about a one-field mask under a set/clear store: a store
/// whose set half covers the field drives it to all ones, one whose
/// clear half covers it drives it to zero, and a store touching neither
/// half of the field leaves it alone.
proof fn lemma_set_clear_field_value(v: u32, off: u32, w: u32, s: u32, c: u32)
    requires
        1 <= w,
        off + w <= 32,
    ensures
        s & (low_mask(w) << off) == (low_mask(w) << off) && c & (low_mask(w) << off) == 0
            ==> crate::field::bits_get(set_clear(v, s, c), off, w) == low_mask(w),
        c & (low_mask(w) << off) == (low_mask(w) << off) && s & (low_mask(w) << off) == 0
            ==> crate::field::bits_get(set_clear(v, s, c), off, w) == 0,
{
    assert((s & (low_mask(w) << off) == (low_mask(w) << off) && c & (low_mask(w) << off) == 0
        ==> ((((v | s) & !c) >> off) & low_mask(w)) == low_mask(w)) && (c & (low_mask(w) << off)
        == (low_mask(w) << off) && s & (low_mask(w) << off) == 0 ==> ((((v | s) & !c) >> off)
        & low_mask(w)) == 0)) by (bit_vector)
        requires
            1 <= w,
            off + w <= 32,
    ;
}

/// A one-bit field's mask, joined with nothing, is itself; and the one
/// low bit of width 1 is `1`.
proof fn lemma_single_mask(m: u32)
    ensures
        m | 0 == m,
        0u32 | 0u32 == 0u32,
        m & m == m,
        m & 0 == 0,
        0 & m == 0,
        low_mask(1) == 1u32,
{
    assert(m | 0 == m && 0u32 | 0u32 == 0u32 && m & m == m && m & 0 == 0 && 0 & m == 0
        && (0xffff_ffffu32 >> 31) == 1u32) by (bit_vector);
}

/// Drives one pin of an atomic-effect register high, as a function taking
/// any register block would: a single set/clear store, safe whatever any
/// concurrent context requests on other bits.
pub fn set_pin(gpio: &mut RegisterBlock, reg: usize, pin: Field)
    requires
        old(gpio).wf(),
        reg < old(gpio).num_regs(),
        old(gpio).desc_at(reg as int).kind is AtomicEffect,
        pin.wf(),
    ensures
        final(gpio).wf(),
        final(gpio).descs_seq() == old(gpio).descs_seq(),
        final(gpio).vals_seq() == old(gpio).vals_seq().update(
            reg as int,
            set_clear(old(gpio).value_at(reg as int), pin.mask(), 0),
        ),
        field_get(final(gpio).value_at(reg as int), pin) == low_mask(pin.width),
{
    let set_fields: Vec<Field> = vec![pin];
    let clear_fields: Vec<Field> = Vec::new();
    proof {
        assert(set_fields@.skip(1) =~= Seq::<Field>::empty());
        lemma_single_mask(pin.mask());
        lemma_set_clear_field_value(
            old(gpio).value_at(reg as int),
            pin.offset,
            pin.width,
            pin.mask(),
            0,
        );
    }
    gpio.atomic_set_clear(reg, &set_fields, &clear_fields);
}

/// What the timer interrupt context does on each update event, exactly
/// as far as the registers go (the caller does the waiting and the
/// dispatch):
///
/// * takes the timer peripheral through the registry — entered only
///   while the foreground holds no handle to it — and clears the
///   pending-update flag with a field-level read-modify-write, which is
///   safe because the handle serializes every context that modifies the
///   timer's registers;
/// * releases the timer again, leaving the registry exactly as it was;
/// * then toggles one LED bit of the output register through the
///   unchecked view and the atomic set/clear path: no handle, safe even
///   though the foreground stores to the same register concurrently,
///   because both sides touch disjoint bits of an atomic-effect register.
pub fn timer_tick(
    registry: &mut Registry,
    tim: &mut RegisterBlock,
    gpio: &mut RegisterBlock,
    tim_id: usize,
    gpio_id: usize,
    sr_reg: usize,
    uif: Field,
    odr_reg: usize,
    led: Field,
)
    requires
        tim_id < old(registry)@.len(),
        gpio_id < old(registry)@.len(),
        !old(registry)@[tim_id as int],
        old(tim).wf(),
        sr_reg < old(tim).num_regs(),
        uif.wf(),
        old(gpio).wf(),
        odr_reg < old(gpio).num_regs(),
        old(gpio).desc_at(odr_reg as int).kind is AtomicEffect,
        led.wf(),
        led.width == 1,
    ensures
        final(registry)@ == old(registry)@,
        final(tim).wf(),
        final(tim).descs_seq() == old(tim).descs_seq(),
        final(tim).vals_seq() == old(tim).vals_seq().update(
            sr_reg as int,
            field_set(old(tim).value_at(sr_reg as int), uif, 0),
        ),
        final(gpio).wf(),
        final(gpio).descs_seq() == old(gpio).descs_seq(),
        final(gpio).vals_seq() == old(gpio).vals_seq().update(
            odr_reg as int,
            if field_get(old(gpio).value_at(odr_reg as int), led) == 1 {
                set_clear(old(gpio).value_at(odr_reg as int), 0, led.mask())
            } else {
                set_clear(old(gpio).value_at(odr_reg as int), led.mask(), 0)
            },
        ),
        field_get(final(gpio).value_at(odr_reg as int), led) == (
        if field_get(old(gpio).value_at(odr_reg as int), led) == 1 {
            0u32
        } else {
            1u32
        }),
{
    let handle = registry.acquire(tim_id).unwrap();
    proof {
        lemma_fits_zero(uif.width);
    }
    let _ = tim.write_field(sr_reg, uif, 0);
    registry.release(handle);
    proof {
        assert(registry@ =~= old(registry)@);
    }

    let _view = registry.unchecked_access(gpio_id);
    let lit = gpio.read_field(odr_reg, led);
    let led_fields: Vec<Field> = vec![led];
    let no_fields: Vec<Field> = Vec::new();
    proof {
        assert(led_fields@.skip(1) =~= Seq::<Field>::empty());
        lemma_single_mask(led.mask());
        lemma_set_clear_field_value(
            old(gpio).value_at(odr_reg as int),
            led.offset,
            led.width,
            led.mask(),
            0,
        );
        lemma_set_clear_field_value(
            old(gpio).value_at(odr_reg as int),
            led.offset,
            led.width,
            0,
            led.mask(),
        );
    }
    if lit == 1 {
        gpio.atomic_set_clear(odr_reg, &no_fields, &led_fields);
    } else {
        gpio.atomic_set_clear(odr_reg, &led_fields, &no_fields);
    }
}

/// The LED mask the foreground loop's next store requests to set:
/// nothing in the dark phase, the first LED in its phase, the second in
/// its own.
pub open spec fn phase_set_mask(led_a: Field, led_b: Field, phase: u8) -> u32 {
    if phase == 1 {
        led_a.mask()
    } else if phase == 2 {
        led_b.mask()
    } else {
        0u32
    }
}

/// The LED mask the foreground loop's next store requests to clear: the
/// complement, within the two LEDs, of [`phase_set_mask`].
pub open spec fn phase_clear_mask(led_a: Field, led_b: Field, phase: u8) -> u32 {
    if phase == 1 {
        led_b.mask()
    } else if phase == 2 {
        led_a.mask()
    } else {
        led_a.mask() | led_b.mask()
    }
}

/// One step of the foreground LED cycle: a single atomic set/clear store
/// that lights the LED of the current phase (neither in phase 0) and
/// darkens the other. The decision is here; the caller runs the loop and
/// the delay between steps. Because the store is atomic-effect and the
/// interrupt context touches only its own disjoint bit, neither side can
/// lose the other's update.
pub fn led_cycle_step(
    gpio: &mut RegisterBlock,
    odr_reg: usize,
    led_a: Field,
    led_b: Field,
    phase: u8,
)
    requires
        old(gpio).wf(),
        odr_reg < old(gpio).num_regs(),
        old(gpio).desc_at(odr_reg as int).kind is AtomicEffect,
        led_a.wf(),
        led_b.wf(),
        led_a.mask() & led_b.mask() == 0,
        phase < 3,
    ensures
        final(gpio).wf(),
        final(gpio).descs_seq() == old(gpio).descs_seq(),
        final(gpio).vals_seq() == old(gpio).vals_seq().update(
            odr_reg as int,
            set_clear(
                old(gpio).value_at(odr_reg as int),
                phase_set_mask(led_a, led_b, phase),
                phase_clear_mask(led_a, led_b, phase),
            ),
        ),
        field_get(final(gpio).value_at(odr_reg as int), led_a) == (
        if phase == 1 {
            low_mask(led_a.width)
        } else {
            0u32
        }),
        field_get(final(gpio).value_at(odr_reg as int), led_b) == (
        if phase == 2 {
            low_mask(led_b.width)
        } else {
            0u32
        }),
{
    let a_fields: Vec<Field> = vec![led_a];
    let b_fields: Vec<Field> = vec![led_b];
    let ab_fields: Vec<Field> = vec![led_a, led_b];
    let no_fields: Vec<Field> = Vec::new();
    let v0 = gpio.read(odr_reg);
    proof {
        assert(a_fields@.skip(1) =~= Seq::<Field>::empty());
        assert(b_fields@.skip(1) =~= Seq::<Field>::empty());
        assert(ab_fields@.skip(1) =~= b_fields@);
        assert(ab_fields@.skip(1).skip(1) =~= Seq::<Field>::empty());
        lemma_single_mask(led_a.mask());
        lemma_single_mask(led_b.mask());
        lemma_masks_disjoint(led_a.mask(), led_b.mask());
        assert(crate::device::fields_mask(no_fields@) == 0);
        assert(crate::device::fields_mask(a_fields@) == led_a.mask());
        assert(crate::device::fields_mask(b_fields@) == led_b.mask());
        assert(crate::device::fields_mask(ab_fields@) == led_a.mask() | led_b.mask());
        lemma_set_clear_field_value(
            v0,
            led_a.offset,
            led_a.width,
            phase_set_mask(led_a, led_b, phase),
            phase_clear_mask(led_a, led_b, phase),
        );
        lemma_set_clear_field_value(
            v0,
            led_b.offset,
            led_b.width,
            phase_set_mask(led_a, led_b, phase),
            phase_clear_mask(led_a, led_b, phase),
        );
    }
    if phase == 0 {
        gpio.atomic_set_clear(odr_reg, &no_fields, &ab_fields);
    } else if phase == 1 {
        gpio.atomic_set_clear(odr_reg, &a_fields, &b_fields);
    } else {
        gpio.atomic_set_clear(odr_reg, &b_fields, &a_fields);
    }
}

/// Consequences of two masks being disjoint, spelled out for the
/// set/clear stores of the LED cycle.
proof fn lemma_masks_disjoint(ma: u32, mb: u32)
    requires
        ma & mb == 0,
    ensures
        mb & ma == 0,
        ma & (ma | mb) == ma,
        mb & (ma | mb) == mb,
        (ma | mb) & ma == ma,
        (ma | mb) & mb == mb,
        0 & (ma | mb) == 0,
        (ma | mb) & 0 == 0,
{
    assert(ma & mb == 0 ==> mb & ma == 0 && ma & (ma | mb) == ma && mb & (ma | mb) == mb && (ma
        | mb) & ma == ma && (ma | mb) & mb == mb && 0 & (ma | mb) == 0 && (ma | mb) & 0 == 0)
        by (bit_vector);
}

} // verus!
