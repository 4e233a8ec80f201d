//! A lock-protected shared counter with explicit reference counting.
//!
//! `SharedCounter` is the storage: a numeric cell, a tri-state lock, and the
//! count of outstanding `SharedHandle`s. The lock is `Free`, `Held`, or
//! `Contaminated`; a holder that terminates abnormally while holding it
//! leaves it `Contaminated`, and every later acquisition fails with
//! `LockContaminated` until the caller explicitly clears the state.

use vstd::prelude::*;

verus! {

/// The state of the mutual-exclusion lock guarding the counter cell.
#[derive(Clone, Copy, PartialEq, Eq, Structural, Debug)]
pub enum LockState {
    /// Nobody holds the lock.
    Free,
    /// Some holder is inside the critical section.
    Held,
    /// A holder terminated abnormally while holding the lock; the cell may be
    /// inconsistent and every acquisition fails until the state is cleared.
    Contaminated,
}

/// Error surfaced by every lock operation attempted on a contaminated lock.
#[derive(Clone, Copy, PartialEq, Eq, Structural, Debug)]
pub struct LockContaminated;

/// A reference-counted capability granting access to one `SharedCounter`.
/// New handles come only from `SharedHandle::new` and
/// `SharedCounter::clone_handle`, so the count in the storage is an upper
/// bound on the handles in circulation.
pub struct SharedHandle {
    #[allow(dead_code)]
    token: bool,
}

/// The storage behind a family of `SharedHandle`s: the numeric cell, its
/// lock, and the reference count.
pub struct SharedCounter {
    value: u64,
    lock: LockState,
    holders: usize,
}

impl SharedHandle {
    /// Allocates counter storage holding `initial`, with a free lock and a
    /// reference count of one for the handle returned alongside it.
    pub fn new(initial: u64) -> (r: (SharedCounter, SharedHandle))
        ensures
            r.0.value() == initial,
            r.0.lock_state() == LockState::Free,
            r.0.holders() == 1,
    {
        (
            SharedCounter { value: initial, lock: LockState::Free, holders: 1 },
            SharedHandle { token: true },
        )
    }
}

impl SharedCounter {
    /// The number stored in the guarded cell.
    pub closed spec fn value(self) -> u64 {
        self.value
    }

    /// The state of the guarding lock.
    pub closed spec fn lock_state(self) -> LockState {
        self.lock
    }

    /// How many `SharedHandle`s are outstanding. The storage is freed exactly
    /// when this reaches zero.
    pub closed spec fn holders(self) -> usize {
        self.holders
    }

    /// Is the storage free, that is, has the last handle been dropped?
    pub open spec fn is_freed(self) -> bool {
        self.holders() == 0
    }

    /// Issues another handle aliasing the same storage, raising the
    /// reference count.
    pub fn clone_handle(&mut self, h: &SharedHandle) -> (r: SharedHandle)
        requires
            old(self).holders() >= 1,
            old(self).holders() < usize::MAX,
        ensures
            final(self).holders() == old(self).holders() + 1,
            final(self).value() == old(self).value(),
            final(self).lock_state() == old(self).lock_state(),
    {
        self.holders = self.holders + 1;
        SharedHandle { token: true }
    }

    /// Retires a handle, lowering the reference count; at zero the storage
    /// is freed.
    pub fn drop_handle(&mut self, h: SharedHandle)
        requires
            old(self).holders() >= 1,
        ensures
            final(self).holders() == old(self).holders() - 1,
            final(self).value() == old(self).value(),
            final(self).lock_state() == old(self).lock_state(),
    {
        self.holders = self.holders - 1;
    }

    /// Acquires the lock. The model forbids the one call that would block:
    /// acquiring while another holder is inside. A contaminated lock refuses
    /// the acquisition and stays contaminated.
    pub fn acquire(&mut self, h: &SharedHandle) -> (r: Result<(), LockContaminated>)
        requires
            old(self).lock_state() != LockState::Held,
        ensures
            final(self).value() == old(self).value(),
            final(self).holders() == old(self).holders(),
            if old(self).lock_state() == LockState::Free {
                &&& r is Ok
                &&& final(self).lock_state() == LockState::Held
            } else {
                &&& r == Err::<(), LockContaminated>(LockContaminated)
                &&& final(self).lock_state() == LockState::Contaminated
            },
    {
        match self.lock {
            LockState::Free => {
                self.lock = LockState::Held;
                Ok(())
            },
            LockState::Contaminated => Err(LockContaminated),
            LockState::Held => Err(LockContaminated),
        }
    }

    /// Releases a held lock normally.
    pub fn release(&mut self)
        requires
            old(self).lock_state() == LockState::Held,
        ensures
            final(self).lock_state() == LockState::Free,
            final(self).value() == old(self).value(),
            final(self).holders() == old(self).holders(),
    {
        self.lock = LockState::Free;
    }

    /// Records that the holder terminated abnormally inside the critical
    /// section: the lock becomes contaminated instead of free.
    pub fn abandon(&mut self)
        requires
            old(self).lock_state() == LockState::Held,
        ensures
            final(self).lock_state() == LockState::Contaminated,
            final(self).value() == old(self).value(),
            final(self).holders() == old(self).holders(),
    {
        self.lock = LockState::Contaminated;
    }

    /// Explicitly acknowledges a contamination, returning the possibly
    /// inconsistent value and making the lock usable again. Contamination is
    /// never cleared any other way.
    pub fn clear(&mut self, h: &SharedHandle) -> (r: u64)
        requires
            old(self).lock_state() == LockState::Contaminated,
        ensures
            r == old(self).value(),
            final(self).lock_state() == LockState::Free,
            final(self).value() == old(self).value(),
            final(self).holders() == old(self).holders(),
    {
        self.lock = LockState::Free;
        self.value
    }

    /// Reads the cell from inside the critical section. Every read of the
    /// raw value happens through this or `read`, never without the lock.
    pub fn read_locked(&self) -> (r: u64)
        requires
            self.lock_state() == LockState::Held,
        ensures
            r == self.value(),
    {
        self.value
    }

    /// Overwrites the cell from inside the critical section.
    pub fn write_locked(&mut self, v: u64)
        requires
            old(self).lock_state() == LockState::Held,
        ensures
            final(self).value() == v,
            final(self).lock_state() == LockState::Held,
            final(self).holders() == old(self).holders(),
    {
        self.value = v;
    }

    /// Runs `f` on the cell with the lock held, releasing the lock on the
    /// way out. On a free lock the cell is replaced by `f`'s result, which is
    /// also returned; on a contaminated lock nothing runs and the error
    /// propagates.
    pub fn with_lock<F: FnOnce(u64) -> u64>(&mut self, h: &SharedHandle, f: F) -> (r: Result<
        u64,
        LockContaminated,
    >)
        requires
            old(self).lock_state() != LockState::Held,
            old(self).lock_state() == LockState::Free ==> call_requires(f, (old(self).value(),)),
        ensures
            final(self).holders() == old(self).holders(),
            final(self).lock_state() == old(self).lock_state(),
            if old(self).lock_state() == LockState::Free {
                &&& r matches Ok(v) && call_ensures(f, (old(self).value(),), v)
                &&& final(self).value() == r.unwrap()
            } else {
                &&& r == Err::<u64, LockContaminated>(LockContaminated)
                &&& final(self).value() == old(self).value()
            },
    {
        match self.acquire(h) {
            Ok(_) => {
                let updated = f(self.value);
                self.value = updated;
                self.release();
                Ok(updated)
            },
            Err(e) => Err(e),
        }
    }

    /// Reads the cell under the lock: acquire, copy, release. Fails exactly
    /// when the lock is contaminated.
    pub fn read(&self, h: &SharedHandle) -> (r: Result<u64, LockContaminated>)
        requires
            self.lock_state() != LockState::Held,
        ensures
            if self.lock_state() == LockState::Free {
                r == Ok::<u64, LockContaminated>(self.value())
            } else {
                r == Err::<u64, LockContaminated>(LockContaminated)
            },
    {
        match self.lock {
            LockState::Free => Ok(self.value),
            LockState::Contaminated => Err(LockContaminated),
            LockState::Held => Err(LockContaminated),
        }
    }
}

} // verus!
