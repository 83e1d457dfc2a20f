use seqlock::ReadOutcome;
use seqlock::SeqLock;
use std::cell::Cell;
use std::sync::atomic::AtomicU64;
use std::sync::atomic::AtomicUsize;
use std::sync::atomic::Ordering;

/// A value of two words that a writer changes one word at a time.
struct Pair {
    low: AtomicU64,
    high: AtomicU64,
}

fn pair(value: u64) -> Pair {
    Pair { low: AtomicU64::new(value), high: AtomicU64::new(value) }
}

fn copy_pair(p: &Pair) -> (u64, u64) {
    (p.low.load(Ordering::Relaxed), p.high.load(Ordering::Relaxed))
}

fn attempt(lock: &SeqLock<AtomicUsize>) -> ReadOutcome<usize> {
    lock.try_read(|d| d.load(Ordering::Relaxed))
}

/// Reads as a reader does: attempt after attempt until one is kept.
fn read(lock: &SeqLock<AtomicUsize>) -> usize {
    loop {
        if let ReadOutcome::Consistent(v) = attempt(lock) {
            return v;
        }
    }
}

fn write_pair(lock: &SeqLock<Pair>, value: u64) {
    let w = lock.lock_write();
    w.low.store(value, Ordering::Relaxed);
    w.high.store(value, Ordering::Relaxed);
}

fn bump_and_leave_early(lock: &SeqLock<AtomicUsize>, leave: bool) -> bool {
    let w = lock.lock_write();
    w.store(w.load(Ordering::Relaxed) + 1, Ordering::Relaxed);
    if leave {
        return true;
    }
    w.store(w.load(Ordering::Relaxed) + 1, Ordering::Relaxed);
    false
}

#[test]
fn read_returns_the_initial_value() {
    let lock = SeqLock::new(AtomicUsize::new(5));
    assert_eq!(attempt(&lock), ReadOutcome::Consistent(5));
    assert_eq!(read(&lock), 5);
}

#[test]
fn write_then_read_returns_the_new_value() {
    let lock = SeqLock::new(AtomicUsize::new(5));
    assert_eq!(read(&lock), 5);
    {
        let w = lock.lock_write();
        w.store(6, Ordering::Relaxed);
        assert_eq!(w.load(Ordering::Relaxed), 6);
    }
    assert_eq!(read(&lock), 6);
}

#[test]
fn guard_reads_what_the_lock_holds() {
    let lock = SeqLock::new(AtomicUsize::new(41));
    let w = lock.lock_write();
    assert_eq!(w.load(Ordering::Relaxed), 41);
    w.store(42, Ordering::Relaxed);
    assert_eq!((*w).load(Ordering::Relaxed), 42);
}

#[test]
fn read_during_a_write_is_refused() {
    let lock = SeqLock::new(AtomicUsize::new(1));
    let w = lock.lock_write();
    assert_eq!(attempt(&lock), ReadOutcome::WriteInProgress);
    w.store(2, Ordering::Relaxed);
    assert_eq!(attempt(&lock), ReadOutcome::WriteInProgress);
    drop(w);
    assert_eq!(attempt(&lock), ReadOutcome::Consistent(2));
}

#[test]
fn no_copy_is_made_during_a_write() {
    let lock = SeqLock::new(AtomicUsize::new(1));
    let copies = Cell::new(0);
    let w = lock.lock_write();
    let out = lock.try_read(|d| {
        copies.set(copies.get() + 1);
        d.load(Ordering::Relaxed)
    });
    assert_eq!(out, ReadOutcome::WriteInProgress);
    assert_eq!(copies.get(), 0);
    drop(w);
    let out = lock.try_read(|d| {
        copies.set(copies.get() + 1);
        d.load(Ordering::Relaxed)
    });
    assert_eq!(out, ReadOutcome::Consistent(1));
    assert_eq!(copies.get(), 1);
}

#[test]
fn write_between_two_copied_words_is_detected() {
    let lock = SeqLock::new(pair(7));
    let out = lock.try_read(|p| {
        let low = p.low.load(Ordering::Relaxed);
        write_pair(&lock, 8);
        let high = p.high.load(Ordering::Relaxed);
        (low, high)
    });
    assert_eq!(out, ReadOutcome::Interrupted);
    assert_eq!(lock.try_read(copy_pair), ReadOutcome::Consistent((8, 8)));
}

#[test]
fn write_that_begins_during_the_copy_is_detected() {
    let lock = SeqLock::new(pair(7));
    let held = Cell::new(None);
    let out = lock.try_read(|p| {
        let low = p.low.load(Ordering::Relaxed);
        let w = lock.lock_write();
        w.low.store(9, Ordering::Relaxed);
        let high = p.high.load(Ordering::Relaxed);
        held.set(Some(w));
        (low, high)
    });
    assert_eq!(out, ReadOutcome::Interrupted);
    assert_eq!(lock.try_read(copy_pair), ReadOutcome::WriteInProgress);
    let w = held.take().unwrap();
    w.high.store(9, Ordering::Relaxed);
    drop(w);
    assert_eq!(lock.try_read(copy_pair), ReadOutcome::Consistent((9, 9)));
}

#[test]
fn write_that_ends_during_the_copy_is_not_read() {
    let lock = SeqLock::new(pair(3));
    let w = lock.lock_write();
    w.low.store(4, Ordering::Relaxed);
    w.high.store(4, Ordering::Relaxed);
    let held = Cell::new(Some(w));
    let out = lock.try_read(|p| {
        drop(held.take());
        copy_pair(p)
    });
    assert_eq!(out, ReadOutcome::WriteInProgress);
    assert!(held.take().is_some());
    assert_eq!(lock.try_read(copy_pair), ReadOutcome::Consistent((4, 4)));
}

#[test]
fn try_lock_write_fails_while_a_guard_is_held() {
    let lock = SeqLock::new(AtomicUsize::new(0));
    let a = lock.lock_write();
    assert!(lock.try_lock_write().is_none());
    assert!(lock.try_lock_write().is_none());
    drop(a);
    let b = lock.try_lock_write();
    assert!(b.is_some());
    assert!(lock.try_lock_write().is_none());
    drop(b);
    assert!(lock.try_lock_write().is_some());
}

#[test]
fn try_lock_write_succeeds_on_a_free_lock() {
    let lock = SeqLock::new(AtomicUsize::new(5));
    {
        let w = lock.try_lock_write().unwrap();
        assert_eq!(attempt(&lock), ReadOutcome::WriteInProgress);
        w.store(6, Ordering::Relaxed);
    }
    assert_eq!(read(&lock), 6);
}

#[test]
fn failed_try_lock_write_leaves_the_counter_alone() {
    let lock = SeqLock::new(AtomicUsize::new(5));
    let a = lock.lock_write();
    assert!(lock.try_lock_write().is_none());
    drop(a);
    assert_eq!(attempt(&lock), ReadOutcome::Consistent(5));
}

#[test]
fn every_write_leaves_the_lock_readable() {
    let lock = SeqLock::new(AtomicUsize::new(0));
    for i in 1..=1000usize {
        {
            let w = lock.lock_write();
            assert_eq!(attempt(&lock), ReadOutcome::WriteInProgress);
            w.store(i, Ordering::Relaxed);
        }
        assert_eq!(attempt(&lock), ReadOutcome::Consistent(i));
    }
}

#[test]
fn guard_is_released_on_early_return() {
    let lock = SeqLock::new(AtomicUsize::new(10));
    assert!(bump_and_leave_early(&lock, true));
    assert_eq!(attempt(&lock), ReadOutcome::Consistent(11));
    assert!(!bump_and_leave_early(&lock, false));
    assert_eq!(attempt(&lock), ReadOutcome::Consistent(13));
    assert!(lock.try_lock_write().is_some());
}

#[test]
fn readers_interleaved_with_a_writer_see_only_committed_values() {
    let initial: u64 = 100;
    let rounds: u64 = 10_000;
    let lock = SeqLock::new(pair(initial));
    let mut kept: u64 = 0;
    let mut refused: u64 = 0;
    let mut check = |point: u64, committed: u64| {
        for reader in 0..8u64 {
            if (reader + point) % 3 == 0 {
                continue;
            }
            match lock.try_read(copy_pair) {
                ReadOutcome::Consistent((low, high)) => {
                    assert_eq!(low, high);
                    assert_eq!(low, committed);
                    assert!(initial <= low && low <= initial + rounds);
                    kept += 1;
                }
                ReadOutcome::WriteInProgress => refused += 1,
                ReadOutcome::Interrupted => panic!("no write began or ended"),
            }
        }
    };
    for i in 0..rounds {
        let committed = initial + i;
        check(4 * i, committed);
        let w = lock.lock_write();
        check(4 * i + 1, committed);
        w.low.store(committed + 1, Ordering::Relaxed);
        check(4 * i + 2, committed);
        w.high.store(committed + 1, Ordering::Relaxed);
        check(4 * i + 3, committed);
        drop(w);
    }
    check(4 * rounds, initial + rounds);
    assert!(kept > 0);
    assert!(refused > 0);
    assert_eq!(lock.try_read(copy_pair), ReadOutcome::Consistent((initial + rounds, initial + rounds)));
}

#[test]
fn reader_overtaken_by_writes_never_keeps_a_torn_copy() {
    let lock = SeqLock::new(pair(0));
    for i in 0..10_000u64 {
        let out = lock.try_read(|p| {
            let low = p.low.load(Ordering::Relaxed);
            if i % 2 == 0 {
                write_pair(&lock, i + 1);
            }
            let high = p.high.load(Ordering::Relaxed);
            (low, high)
        });
        if i % 2 == 0 {
            assert_eq!(out, ReadOutcome::Interrupted);
        } else {
            assert_eq!(out, ReadOutcome::Consistent((i, i)));
        }
    }
}

#[test]
fn into_inner_returns_the_last_written_value() {
    let lock = SeqLock::new(AtomicUsize::new(5));
    {
        let w = lock.lock_write();
        w.store(6, Ordering::Relaxed);
    }
    {
        let w = lock.lock_write();
        w.store(7, Ordering::Relaxed);
    }
    assert_eq!(lock.into_inner().into_inner(), 7);
}

#[test]
fn into_inner_returns_the_initial_value() {
    let lock = SeqLock::new(17u32);
    assert_eq!(lock.into_inner(), 17);
}

#[test]
fn get_mut_changes_the_value_without_locking() {
    let mut lock = SeqLock::new(5u64);
    *lock.get_mut() += 1;
    assert_eq!(*lock.get_mut(), 6);
    assert_eq!(lock.try_read(|v| *v), ReadOutcome::Consistent(6));
    assert!(lock.try_lock_write().is_some());
    assert_eq!(lock.into_inner(), 6);
}

#[test]
fn default_lock_holds_the_default_value() {
    let lock: SeqLock<AtomicUsize> = SeqLock::default();
    assert_eq!(read(&lock), 0);
    let plain: SeqLock<i32> = SeqLock::default();
    assert_eq!(plain.into_inner(), 0);
}
