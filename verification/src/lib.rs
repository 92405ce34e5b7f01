//! A runtime peripheral-ownership discipline for memory-mapped registers.
//!
//! Two layers:
//!
//! * [`registry`] — a process-wide ownership registry that hands out at most
//!   one live handle per peripheral instance (`acquire` / `release`), plus an
//!   explicitly named unchecked bypass for call sites that carry their own
//!   proof of non-interference.
//! * [`device`] — a typed register-access layer over a peripheral's register
//!   block: whole-register and named-field read, write, modify and reset
//!   operations, and an atomic set/clear path for registers whose hardware
//!   applies per-bit set and clear requests independently.
//!
//! Register and field layouts are ordinary data ([`field::Field`],
//! [`device::RegisterDesc`]); no concrete chip layout is baked in.

use vstd::prelude::*;

pub mod device;
pub mod driver;
pub mod field;
pub mod registry;
pub mod trace;

verus! {

/// A logical failure of a register operation.
///
/// Memory-mapped I/O does not time out in this model, so the only failures
/// are logical ones.
#[derive(Clone, Copy, Debug, PartialEq, Eq, Structural)]
pub enum AccessError {
    /// A caller supplied a field value wider than the field's bit width.
    /// Policy: reject rather than truncate, so a wrong value is never
    /// silently programmed into a register.
    InvalidFieldValue,
}

} // verus!
