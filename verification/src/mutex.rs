//! The lock type: a flag and a payload, with exclusive access through
//! `with_lock`.

use vstd::prelude::*;

verus! {

/// The flag value while some caller is inside its critical section.
pub const LOCKED: bool = true;

/// The flag value while no caller holds the lock.
pub const UNLOCKED: bool = false;

/// A mutual-exclusion guard over a payload of type `T`.
pub struct Mutex<T> {
    locked: bool,
    value: T,
}

impl<T> Mutex<T> {
    /// The state of the lock flag: `LOCKED` while a critical section is open.
    pub closed spec fn flag(&self) -> bool {
        self.locked
    }

    /// The payload currently guarded by the lock.
    pub closed spec fn payload(&self) -> T {
        self.value
    }

    /// Takes ownership of `value`; the new lock starts `UNLOCKED`.
    pub fn new(value: T) -> (m: Mutex<T>)
        ensures
            m.flag() == UNLOCKED,
            m.payload() == value,
    {
        Mutex { locked: UNLOCKED, value }
    }

    /// One compare-and-exchange attempt on the flag: expected `UNLOCKED`,
    /// desired `LOCKED`.  It succeeds exactly when the lock was free, and
    /// never touches the payload.
    pub fn try_acquire(&mut self) -> (acquired: bool)
        ensures
            acquired == (old(self).flag() == UNLOCKED),
            final(self).flag() == (acquired || old(self).flag() == LOCKED),
            final(self).payload() == old(self).payload(),
    {
        if self.locked == UNLOCKED {
            self.locked = LOCKED;
            true
        } else {
            false
        }
    }

    /// Stores `UNLOCKED` into the flag, ending the critical section.  Only
    /// the holder of the lock may release it.
    pub fn release(&mut self)
        requires
            old(self).flag() == LOCKED,
        ensures
            final(self).flag() == UNLOCKED,
            final(self).payload() == old(self).payload(),
    {
        self.locked = UNLOCKED;
    }

    /// Reads the flag, as the read-only phase of a contended acquire does.
    pub fn is_locked(&self) -> (b: bool)
        ensures
            b == self.flag(),
    {
        self.locked
    }

    /// Runs `f` on the payload inside a critical section and returns its
    /// result; the flag is `UNLOCKED` again on return.
    ///
    /// A lock that is already held would leave the caller spinning with no
    /// other holder to release it, so the flag must be `UNLOCKED` on entry;
    /// a single exchange attempt then suffices, and no read-only spin phase
    /// is entered at all.
    pub fn with_lock<R, F: FnOnce(&mut T) -> R>(&mut self, f: F) -> (r: R)
        requires
            old(self).flag() == UNLOCKED,
            forall|v: &mut T|
                mut_ref_current(v) == old(self).payload() ==> #[trigger] call_requires(f, (v,)),
        ensures
            final(self).flag() == UNLOCKED,
            exists|v: &mut T|
                #[trigger] call_ensures(f, (v,), r) && mut_ref_current(v) == old(self).payload()
                    && mut_ref_future(v) == final(self).payload(),
    {
        let acquired = self.try_acquire();
        assert(acquired);
        let r = f(&mut self.value);
        self.release();
        r
    }
}

/// What an acquire loop should do next on the flag.
#[derive(Clone, Copy, Debug, PartialEq, Eq, Structural)]
pub enum SpinStep {
    /// Attempt one compare-and-exchange, `UNLOCKED` to `LOCKED`.
    Exchange,
    /// Read the flag without writing, leaving its cache line shared.
    Read,
    /// The exchange succeeded: enter the critical section.
    Enter,
}

/// What the acquire loop last observed on the flag.
#[derive(Clone, Copy, Debug, PartialEq, Eq, Structural)]
pub enum Observation {
    /// No attempt has been made yet.
    Start,
    /// A compare-and-exchange attempt lost the race to another holder.
    ExchangeFailed,
    /// A read-only poll of the flag saw `LOCKED`.
    SawLocked,
    /// A read-only poll of the flag saw `UNLOCKED`.
    SawUnlocked,
    /// A compare-and-exchange attempt succeeded.
    ExchangeSucceeded,
}

/// The two-phase test-and-test-and-set acquire policy, one decision at a
/// time: exchange first; after a lost exchange fall back to read-only polls,
/// so that waiters do not fight over exclusive ownership of the flag's cache
/// line; exchange again only once a poll has seen the flag free.
///
/// An uncontended caller therefore issues exactly one exchange attempt and
/// no read-only poll: from `Start` the policy goes straight to `Exchange`,
/// and a successful exchange goes straight to `Enter`.
pub fn next_spin_step(last: Observation) -> (s: SpinStep)
    ensures
        s == (match last {
            Observation::Start => SpinStep::Exchange,
            Observation::ExchangeFailed => SpinStep::Read,
            Observation::SawLocked => SpinStep::Read,
            Observation::SawUnlocked => SpinStep::Exchange,
            Observation::ExchangeSucceeded => SpinStep::Enter,
        }),
{
    match last {
        Observation::Start => SpinStep::Exchange,
        Observation::ExchangeFailed => SpinStep::Read,
        Observation::SawLocked => SpinStep::Read,
        Observation::SawUnlocked => SpinStep::Exchange,
        Observation::ExchangeSucceeded => SpinStep::Enter,
    }
}

} // verus!
