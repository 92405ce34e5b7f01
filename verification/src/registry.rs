//! The peripheral ownership registry.
//!
//! One ownership flag per peripheral instance, initialized to free at
//! startup. `acquire` flips a free flag to taken and hands out the only
//! live handle; `release` consumes the handle and flips the flag back.
//! `acquire` never blocks: on a taken peripheral it returns `None` and the
//! caller decides whether that is fatal.
//!
//! On real hardware the check-and-set inside `acquire` must be indivisible
//! with respect to interrupt preemption (preemption is masked only for the
//! duration of the check-and-set). In this model each operation is a single
//! call, so every interleaving a test builds is a sequence of whole
//! operations, which is exactly the guarantee that indivisibility buys.

use vstd::prelude::*;

verus! {

/// The runtime token for exclusive permission to access one peripheral's
/// registers. Only a successful [`Registry::acquire`] creates one;
/// [`Registry::release`] consumes it.
pub struct PeripheralHandle {
    id: usize,
}

impl PeripheralHandle {
    /// The peripheral this handle grants access to.
    pub closed spec fn pid(self) -> usize {
        self.id
    }

    /// Reads the peripheral identifier, e.g. to pick the register block it
    /// belongs to.
    pub fn peripheral(&self) -> (r: usize)
        ensures
            r == self.pid(),
    {
        self.id
    }
}

/// An unchecked view of a peripheral, created by
/// [`Registry::unchecked_access`] without consulting the ownership flags.
/// The caller carries the proof obligation that no concurrent context can
/// violate register-level invariants (e.g. every context restricts itself
/// to atomic set/clear operations or plain reads).
pub struct RawPeripheralView {
    id: usize,
}

impl RawPeripheralView {
    /// The peripheral this view refers to.
    pub closed spec fn pid(self) -> usize {
        self.id
    }

    /// Reads the peripheral identifier.
    pub fn peripheral(&self) -> (r: usize)
        ensures
            r == self.pid(),
    {
        self.id
    }
}

/// Process-wide ownership state: one flag per peripheral instance,
/// `true` while the peripheral is checked out.
pub struct Registry {
    taken: Vec<bool>,
}

impl View for Registry {
    type V = Seq<bool>;

    closed spec fn view(&self) -> Seq<bool> {
        self.taken@
    }
}

impl Registry {
    /// Creates the registry with every one of the `n` peripherals free.
    /// Built once at startup; nothing ever resets it except `release`.
    pub fn new(n: usize) -> (r: Registry)
        ensures
            r@.len() == n,
            forall|i: int| 0 <= i < n ==> !r@[i],
    {
        let mut taken: Vec<bool> = Vec::new();
        let mut i: usize = 0;
        while i < n
            invariant
                i <= n,
                taken@.len() == i,
                forall|j: int| 0 <= j < i ==> !taken@[j],
            decreases n - i,
        {
            taken.push(false);
            i = i + 1;
        }
        Registry { taken }
    }

    /// The number of peripheral instances the registry tracks.
    pub fn len(&self) -> (r: usize)
        ensures
            r == self@.len(),
    {
        self.taken.len()
    }

    /// Whether peripheral `id` is currently checked out.
    pub fn is_taken(&self, id: usize) -> (r: bool)
        requires
            id < self@.len(),
        ensures
            r == self@[id as int],
    {
        self.taken[id]
    }

    /// Checks the ownership flag for `id` and, if the peripheral is free,
    /// marks it taken and returns the one live handle for it. On a taken
    /// peripheral it returns `None` at once: no blocking, no retry. The
    /// caller decides whether absence is fatal (two code paths configured
    /// to use the same peripheral is a programming mistake, not a runtime
    /// condition to recover from).
    pub fn acquire(&mut self, id: usize) -> (r: Option<PeripheralHandle>)
        requires
            id < old(self)@.len(),
        ensures
            final(self)@.len() == old(self)@.len(),
            old(self)@[id as int] ==> r is None && final(self)@ == old(self)@,
            !old(self)@[id as int] ==> (match r {
                Some(h) => h.pid() == id && final(self)@ == old(self)@.update(id as int, true),
                None => false,
            }),
    {
        if self.taken[id] {
            None
        } else {
            self.taken.set(id, true);
            Some(PeripheralHandle { id })
        }
    }

    /// Consumes the handle and marks its peripheral free again for a
    /// future `acquire`. Releasing changes availability only: it does not
    /// flush any pending register write.
    pub fn release(&mut self, handle: PeripheralHandle)
        requires
            handle.pid() < old(self)@.len(),
            old(self)@[handle.pid() as int],
        ensures
            final(self)@ == old(self)@.update(handle.pid() as int, false),
    {
        self.taken.set(handle.id, false);
    }

    /// Bypasses the ownership check entirely and returns a raw view of
    /// peripheral `id`, whether or not it is taken. This is the explicitly
    /// named alternate entry point for call sites (typically interrupt
    /// handlers) that have proved their register usage cannot conflict
    /// with any concurrent context; the registry cannot check that proof.
    pub fn unchecked_access(&self, id: usize) -> (r: RawPeripheralView)
        requires
            id < self@.len(),
        ensures
            r.pid() == id,
    {
        RawPeripheralView { id }
    }
}

} // verus!
