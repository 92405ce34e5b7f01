//! A trace model of the ownership registry, and the mutual-exclusion
//! argument over it.
//!
//! A trace is the sequence of registry operations that the contexts of a
//! program performed, in the order their indivisible check-and-sets took
//! effect (one foreground context and any number of preempting interrupt
//! contexts interleave to exactly such a sequence). [`valid_trace`] says
//! each event was permitted by the registry in the state it found;
//! [`live_handles`] counts the handles to one peripheral created and not
//! yet consumed. The laws below state that a valid trace can never hold
//! two live handles to one peripheral at once, and that a release always
//! re-enables acquisition.

use vstd::prelude::*;

verus! {

/// One observable registry operation on a peripheral.
#[derive(Clone, Copy, Debug, PartialEq, Eq, Structural)]
pub enum RegistryEvent {
    /// An `acquire` that succeeded and created a handle.
    Acquired(usize),
    /// An `acquire` that found the peripheral taken and returned nothing.
    AcquireFailed(usize),
    /// A `release` that consumed a handle.
    Released(usize),
}

/// The registry state at startup: every one of the `n` peripherals free.
pub open spec fn initial_state(n: nat) -> Seq<bool> {
    Seq::new(n, |i: int| false)
}

/// The ownership flags after `e` takes effect in state `s`. An event
/// naming a peripheral the registry does not track changes nothing;
/// [`event_allowed`] rules such events out of a valid trace anyway.
pub open spec fn step(s: Seq<bool>, e: RegistryEvent) -> Seq<bool> {
    match e {
        RegistryEvent::Acquired(id) => if id < s.len() {
            s.update(id as int, true)
        } else {
            s
        },
        RegistryEvent::AcquireFailed(_) => s,
        RegistryEvent::Released(id) => if id < s.len() {
            s.update(id as int, false)
        } else {
            s
        },
    }
}

/// Whether the registry, in state `s`, can produce event `e`: a
/// successful acquire needs a free flag, a failed acquire a taken one,
/// and a release consumes a handle, which only exists while the flag is
/// taken.
pub open spec fn event_allowed(s: Seq<bool>, e: RegistryEvent) -> bool {
    match e {
        RegistryEvent::Acquired(id) => id < s.len() && !s[id as int],
        RegistryEvent::AcquireFailed(id) => id < s.len() && s[id as int],
        RegistryEvent::Released(id) => id < s.len() && s[id as int],
    }
}

/// The ownership flags after the whole trace `t` ran from startup with
/// `n` peripherals.
pub open spec fn state_after(n: nat, t: Seq<RegistryEvent>) -> Seq<bool>
    decreases t.len(),
{
    if t.len() == 0 {
        initial_state(n)
    } else {
        step(state_after(n, t.drop_last()), t.last())
    }
}

/// Every event of `t` was permitted in the state it found.
pub open spec fn valid_trace(n: nat, t: Seq<RegistryEvent>) -> bool {
    forall|i: int| 0 <= i < t.len()
        ==> event_allowed(state_after(n, #[trigger] t.take(i)), t[i])
}

/// The number of handles to peripheral `id` created by `t` and not yet
/// consumed: successful acquires minus releases.
pub open spec fn live_handles(t: Seq<RegistryEvent>, id: usize) -> int
    decreases t.len(),
{
    if t.len() == 0 {
        0
    } else {
        live_handles(t.drop_last(), id) + match t.last() {
            RegistryEvent::Acquired(j) => if j == id { 1int } else { 0int },
            RegistryEvent::AcquireFailed(_) => 0int,
            RegistryEvent::Released(j) => if j == id { -1int } else { 0int },
        }
    }
}

/// A prefix of a valid trace is a valid trace.
proof fn lemma_valid_prefix(n: nat, t: Seq<RegistryEvent>)
    requires
        valid_trace(n, t),
        t.len() > 0,
    ensures
        valid_trace(n, t.drop_last()),
{
    assert forall|i: int| 0 <= i < t.drop_last().len() implies event_allowed(
        state_after(n, #[trigger] t.drop_last().take(i)),
        t.drop_last()[i],
    ) by {
        assert(t.drop_last().take(i) =~= t.take(i));
        assert(event_allowed(state_after(n, t.take(i)), t[i]));
    }
}

/// Mutual exclusion: along any valid trace, the number of live handles
/// to a peripheral is 1 exactly while its flag is taken and 0 while it
/// is free — so at any instant it is 0 or 1, never 2.
pub proof fn lemma_mutual_exclusion(n: nat, t: Seq<RegistryEvent>, id: usize)
    requires
        valid_trace(n, t),
        id < n,
    ensures
        live_handles(t, id) == if state_after(n, t)[id as int] {
            1int
        } else {
            0int
        },
    decreases t.len(),
{
    if t.len() == 0 {
    } else {
        lemma_valid_prefix(n, t);
        lemma_mutual_exclusion(n, t.drop_last(), id);
        let prev = state_after(n, t.drop_last());
        assert(t.take(t.len() - 1) =~= t.drop_last());
        assert(event_allowed(prev, t.last()));
        lemma_state_len(n, t.drop_last());
    }
}

/// At any simulated instant of a valid trace, the number of live handles
/// to any peripheral is 0 or 1.
pub proof fn lemma_at_most_one_handle(n: nat, t: Seq<RegistryEvent>, id: usize)
    requires
        valid_trace(n, t),
        id < n,
    ensures
        0 <= live_handles(t, id) <= 1,
{
    lemma_mutual_exclusion(n, t, id);
}

/// While a handle to `id` is live, no second `acquire` of `id` can
/// succeed: the event is not allowed until a release intervenes.
pub proof fn lemma_second_acquire_fails(n: nat, t: Seq<RegistryEvent>, id: usize)
    requires
        valid_trace(n, t),
        id < n,
        live_handles(t, id) == 1,
    ensures
        !event_allowed(state_after(n, t), RegistryEvent::Acquired(id)),
{
    lemma_mutual_exclusion(n, t, id);
}

/// A taken flag that is later free must have been released in between:
/// no other event frees it.
proof fn lemma_flag_fall_has_release(n: nat, t: Seq<RegistryEvent>, id: usize, m: int, j: int)
    requires
        id < n,
        0 <= m <= j <= t.len(),
        state_after(n, t.take(m))[id as int],
        !state_after(n, t.take(j))[id as int],
    ensures
        exists|k: int| m <= k < j && t[k] == RegistryEvent::Released(id),
    decreases j - m,
{
    lemma_state_len(n, t.take(m));
    lemma_state_len(n, t.take(j - 1));
    let s_prev = state_after(n, t.take(j - 1));
    assert(t.take(j).drop_last() =~= t.take(j - 1));
    assert(state_after(n, t.take(j)) == step(s_prev, t[j - 1]));
    if t[j - 1] == RegistryEvent::Released(id) {
        assert(m <= j - 1 < j && t[j - 1] == RegistryEvent::Released(id));
    } else {
        assert(s_prev[id as int] == state_after(n, t.take(j))[id as int]);
        lemma_flag_fall_has_release(n, t, id, m, j - 1);
        let k = choose|k: int| m <= k < j - 1 && t[k] == RegistryEvent::Released(id);
        assert(m <= k < j && t[k] == RegistryEvent::Released(id));
    }
}

/// The mutual-exclusion sentence as a harness observes it: in any valid
/// trace, between two successful acquires of one peripheral there is
/// always a release of it.
pub proof fn lemma_no_double_acquire(n: nat, t: Seq<RegistryEvent>, id: usize, i: int, j: int)
    requires
        valid_trace(n, t),
        id < n,
        0 <= i < j < t.len(),
        t[i] == RegistryEvent::Acquired(id),
        t[j] == RegistryEvent::Acquired(id),
    ensures
        exists|k: int| i < k < j && t[k] == RegistryEvent::Released(id),
{
    lemma_state_len(n, t.take(i));
    assert(t.take(i + 1).drop_last() =~= t.take(i));
    assert(state_after(n, t.take(i + 1)) == step(state_after(n, t.take(i)), t[i]));
    assert(state_after(n, t.take(i + 1))[id as int]);
    assert(event_allowed(state_after(n, t.take(j)), t[j]));
    lemma_flag_fall_has_release(n, t, id, i + 1, j);
    let k = choose|k: int| i + 1 <= k < j && t[k] == RegistryEvent::Released(id);
    assert(i < k < j && t[k] == RegistryEvent::Released(id));
}

/// Release enables re-acquire: immediately after a trace ending in a
/// release of `id`, an `acquire` of `id` is allowed (and no other holder
/// can exist, by mutual exclusion).
pub proof fn lemma_release_enables_reacquire(n: nat, t: Seq<RegistryEvent>, id: usize)
    requires
        valid_trace(n, t),
        id < n,
        t.len() > 0,
        t.last() == RegistryEvent::Released(id),
    ensures
        event_allowed(state_after(n, t), RegistryEvent::Acquired(id)),
{
    lemma_valid_prefix(n, t);
    lemma_state_len(n, t.drop_last());
}

/// The contract of [`crate::registry::Registry::acquire`] performs
/// exactly one trace step: a success is an allowed [`Acquired`] event
/// with its transition, a failure an allowed [`AcquireFailed`] event
/// that changes nothing. So every run of acquire/release calls against
/// the registry is a valid trace, and the laws above apply to it.
///
/// [`Acquired`]: RegistryEvent::Acquired
/// [`AcquireFailed`]: RegistryEvent::AcquireFailed
pub proof fn lemma_acquire_is_one_step(s: Seq<bool>, id: usize)
    requires
        id < s.len(),
    ensures
        !s[id as int] ==> event_allowed(s, RegistryEvent::Acquired(id)) && step(
            s,
            RegistryEvent::Acquired(id),
        ) == s.update(id as int, true),
        s[id as int] ==> event_allowed(s, RegistryEvent::AcquireFailed(id)) && step(
            s,
            RegistryEvent::AcquireFailed(id),
        ) == s,
{
}

/// The contract of [`crate::registry::Registry::release`] performs
/// exactly one allowed [`Released`] step: a handle exists only for a
/// taken peripheral, and the transition frees it.
///
/// [`Released`]: RegistryEvent::Released
pub proof fn lemma_release_is_one_step(s: Seq<bool>, id: usize)
    requires
        id < s.len(),
        s[id as int],
    ensures
        event_allowed(s, RegistryEvent::Released(id)),
        step(s, RegistryEvent::Released(id)) == s.update(id as int, false),
{
}

/// Running a trace never changes how many peripherals there are.
pub proof fn lemma_state_len(n: nat, t: Seq<RegistryEvent>)
    ensures
        state_after(n, t).len() == n,
    decreases t.len(),
{
    if t.len() == 0 {
    } else {
        lemma_state_len(n, t.drop_last());
    }
}

} // verus!
