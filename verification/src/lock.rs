//! The lock and its write guard.
//!
//! What the counter holds at any moment depends on what other threads do, so
//! no contract here speaks of it. What is done with a value once it is loaded
//! is stated over that value: by `begin_write` and `lock_guard` here, and by
//! the functions of `sequence` and `reader`. `protocol` proves what follows
//! for the interleavings of writers and readers.

use std::sync::atomic::AtomicUsize;
use std::sync::atomic::Ordering;
use vstd::prelude::*;
use crate::mutex::Held;
use crate::mutex::acquire;
use crate::mutex::new_mutex;
use crate::mutex::try_acquire;
use crate::reader::ReadOutcome;
use crate::reader::conclude;
use crate::sequence::advance;
use crate::sequence::advanced;
use crate::sequence::is_write_in_progress;

verus! {

/// `std::sync::atomic::fence`: a memory barrier of the given ordering. It
/// returns nothing and panics on `Relaxed`, which no barrier can have.
pub assume_specification[ std::sync::atomic::fence ](order: Ordering)
    requires
        order != Ordering::Relaxed,
;

/// A sequence lock around a value of type `T`.
///
/// Readers and writers reach the value through shared references, so `T` is a
/// type that can be read and changed through one (atomics, or a cell that the
/// caller vouches for). The lock adds the counter that tells readers whether
/// what they copied is whole, and the mutex that serialises writers.
pub struct SeqLock<T> {
    /// Even while no write is under way, odd during a write.
    seq: AtomicUsize,
    data: T,
    /// Held by the one writer that may change `data`. Readers never take it.
    mutex: parking_lot::Mutex<()>,
}

/// Exclusive write access to the value of a `SeqLock`. While it lives the
/// counter is odd and the mutex is held; its destruction makes the counter even
/// again and then releases the mutex, on whatever path the guard goes out of
/// scope.
pub struct SeqLockGuard<'a, T> {
    seqlock: &'a SeqLock<T>,
    /// The counter value that began the write. The value after it ends the
    /// write.
    seq: usize,
    _guard: Held<'a>,
}

impl<T> SeqLock<T> {
    /// The protected value.
    pub closed spec fn view(&self) -> T {
        self.data
    }

    /// The cell that holds the sequence counter. What it holds is not part
    /// of it: that changes under a shared reference.
    pub closed spec fn counter_cell(&self) -> AtomicUsize {
        self.seq
    }

    /// The mutex that writers take.
    pub closed spec fn writer_mutex(&self) -> parking_lot::Mutex<()> {
        self.mutex
    }

    /// Creates a lock around `val`, with the counter at zero and the mutex
    /// free.
    pub fn new(val: T) -> (lock: SeqLock<T>)
        ensures
            lock@ == val,
    {
        SeqLock { seq: AtomicUsize::new(0), data: val, mutex: new_mutex() }
    }

    /// Makes one attempt to read: loads the counter, lets `copy` copy the
    /// value unless a write is under way, and loads the counter again.
    ///
    /// The copy is handed out only as `Consistent`, when both loads gave the
    /// same even value. On `WriteInProgress` the caller gives way to other
    /// threads before the next attempt, on `Interrupted` it tries again at
    /// once, without limit. A thread that holds the write guard of this lock
    /// gets `WriteInProgress` for as long as it holds it.
    ///
    /// `copy` may run while a writer changes the value, so it must be able to
    /// copy a value that is half changed; such a copy is never handed out.
    pub fn try_read<R, F: FnOnce(&T) -> R>(&self, copy: F) -> (out: ReadOutcome<R>)
        requires
            copy.requires((&self@,)),
        ensures
            out matches ReadOutcome::Consistent(r) ==> copy.ensures((&self@,), r),
    {
        // Acquire: the copy below is not moved before this load.
        let seq1: usize = self.seq.load(Ordering::Acquire);
        if is_write_in_progress(seq1) {
            return ReadOutcome::WriteInProgress;
        }
        let copied = copy(&self.data);
        // The copy is complete before the counter is loaded again.
        std::sync::atomic::fence(Ordering::Acquire);
        let seq2: usize = self.seq.load(Ordering::Relaxed);
        conclude(seq1, seq2, copied)
    }

    /// Begins a write, given the counter value `found` that the holder of
    /// the mutex has just loaded: stores the value after `found` into the
    /// counter, which makes it odd, and returns the value stored. The barrier
    /// keeps the writes to the value behind the store. Only the holder of the
    /// mutex moves the counter, so it still holds `found` when this is called.
    fn begin_write(&self, found: usize) -> (seq: usize)
        ensures
            seq == advanced(found),
    {
        let seq: usize = advance(found);
        self.seq.store(seq, Ordering::Relaxed);
        std::sync::atomic::fence(Ordering::Release);
        seq
    }

    /// Begins a write at the counter value `found` under the held mutex, and
    /// ties both to a guard.
    fn lock_guard<'a>(&'a self, found: usize, guard: Held<'a>) -> (write: SeqLockGuard<'a, T>)
        ensures
            write@ == self@,
            write.begun() == advanced(found),
    {
        let seq: usize = self.begin_write(found);
        SeqLockGuard { seqlock: self, seq, _guard: guard }
    }

    /// Begins a write at the current counter value if the mutex was taken.
    fn guard_if_held<'a>(&'a self, guard: Option<Held<'a>>) -> (write: Option<
        SeqLockGuard<'a, T>,
    >)
        ensures
            write is Some <==> guard is Some,
            write matches Some(w) ==> w@ == self@,
    {
        match guard {
            Some(g) => {
                let found: usize = self.seq.load(Ordering::Relaxed);
                Some(self.lock_guard(found, g))
            },
            None => None,
        }
    }

    /// Waits for the mutex, then begins a write. Readers are not waited for:
    /// they see the odd counter and try again. A thread that already holds a
    /// guard of this lock waits for ever.
    pub fn lock_write(&self) -> (write: SeqLockGuard<'_, T>)
        ensures
            write@ == self@,
    {
        let held = acquire(&self.mutex);
        let found: usize = self.seq.load(Ordering::Relaxed);
        self.lock_guard(found, held)
    }

    /// Begins a write if the mutex is free, and returns `None` at once if
    /// another guard holds it.
    pub fn try_lock_write(&self) -> (write: Option<SeqLockGuard<'_, T>>)
        ensures
            write matches Some(w) ==> w@ == self@,
    {
        self.guard_if_held(try_acquire(&self.mutex))
    }

    /// Takes the lock apart and returns the value.
    pub fn into_inner(self) -> (val: T)
        ensures
            val == self@,
    {
        self.data
    }

    /// The value, for a caller that holds the lock alone. Neither the mutex
    /// nor the counter is touched.
    pub fn get_mut(&mut self) -> (val: &mut T)
        ensures
            *val == old(self)@,
            final(self)@ == *final(val),
            final(self).counter_cell() == old(self).counter_cell(),
            final(self).writer_mutex() == old(self).writer_mutex(),
    {
        &mut self.data
    }
}

impl<'a, T> SeqLockGuard<'a, T> {
    /// The value that the guard gives access to.
    pub closed spec fn view(&self) -> T {
        self.seqlock.data
    }

    /// The counter value that began the write of this guard. Its destruction
    /// stores the value after it.
    pub closed spec fn begun(&self) -> usize {
        self.seq
    }
}

impl<'a, T> std::ops::Deref for SeqLockGuard<'a, T> {
    type Target = T;

    /// The value of the lock.
    fn deref(&self) -> (val: &T)
        ensures
            *val == self@,
    {
        &self.seqlock.data
    }
}

impl<T: Default> Default for SeqLock<T> {
    /// A lock around the default value of `T`.
    fn default() -> (lock: SeqLock<T>)
        ensures
            T::default.ensures((), lock@),
    {
        SeqLock::new(T::default())
    }
}

impl<'a, T> Drop for SeqLockGuard<'a, T> {
    /// Ends the write: stores the value after the one that began it into the
    /// counter, which makes it even again. The mutex is released after it,
    /// when the fields are destroyed.
    fn drop(&mut self)
        opens_invariants none
        no_unwind
    {
        store_release(&self.seqlock.seq, advance(self.seq));
    }
}

/// Calls `AtomicUsize::store` with release ordering, so that what was written
/// before the call is seen by whoever sees `value` in `counter`. A store
/// accepts that ordering, so the call does not panic.
#[verifier::external_body]
fn store_release(counter: &AtomicUsize, value: usize)
    opens_invariants none
    no_unwind
{
    counter.store(value, Ordering::Release)
}

} // verus!
