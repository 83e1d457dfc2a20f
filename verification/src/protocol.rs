//! The protocol as a transition system, and what holds of every run of it.
//!
//! A world holds the counter, the data cell as a row of words, the mutex and
//! the writers that are past the mutex. Writers move it one event at a time:
//! take the mutex, load the counter, begin a write, store a word, end the
//! write, release the mutex. Every load, store and copy of one word is taken
//! as one indivisible step, and all steps of all threads as one sequence; the
//! barriers in the executable code are what makes a machine behave so.
//! Readers change nothing: a read attempt is given by the moments at which it
//! loaded the counter and copied each word, in any order and with any number
//! of writer steps in between.
//!
//! The steps use the counter arithmetic of `sequence` and the verdict of
//! `reader`, which the executable lock computes with.

use vstd::prelude::*;
use crate::reader::ReadOutcome;
use crate::reader::read_outcome;
use crate::sequence::advanced;
use crate::sequence::counter_after;
use crate::sequence::counter_after_next;
use crate::sequence::modulus;
use crate::sequence::same_counter_same_ticks;
use crate::sequence::two_advances_add_two;
use crate::sequence::write_in_progress;

verus! {

/// Where a writer stands between taking the mutex and releasing it.
pub enum WriterPhase {
    /// It holds the mutex and has not yet looked at the counter.
    Acquired,
    /// It has loaded the counter and not yet begun to write.
    Loaded,
    /// It has begun to write: its guard is alive.
    Writing,
    /// It has ended the write and not yet released the mutex.
    Ended,
}

/// A writer that is past the mutex.
pub struct Writer {
    pub phase: WriterPhase,
    /// The counter as the writer loaded it before it began to write.
    pub found: usize,
    /// The counter value that the writer stored when it began to write, and
    /// that its guard carries.
    pub seq: usize,
}

/// The lock and its writers at one moment.
pub struct World<V> {
    /// The sequence counter.
    pub counter: usize,
    /// The data cell, word by word.
    pub cell: Seq<V>,
    /// Whether the mutex is held.
    pub locked: bool,
    /// The writers that are past the mutex, by thread.
    pub writers: Map<nat, Writer>,
    /// How many times the counter has advanced since the lock was made.
    pub ticks: nat,
    /// The values that the cell held when the lock was made and at the end of
    /// each write, oldest first.
    pub committed: Seq<Seq<V>>,
}

/// One step of one writer.
pub enum Event<V> {
    /// The thread takes the mutex.
    Acquire { writer: nat },
    /// The thread loads the counter.
    Load { writer: nat },
    /// The thread stores the value after the one it loaded into the counter
    /// and keeps it.
    Begin { writer: nat },
    /// The thread stores one word of the cell through its guard.
    Store { writer: nat, at: int, word: V },
    /// The thread stores the value after the one that its guard carries into
    /// the counter.
    End { writer: nat },
    /// The thread releases the mutex.
    Release { writer: nat },
}

/// The world of a lock that was just made around `initial`.
pub open spec fn initial_world<V>(initial: Seq<V>) -> World<V> {
    World {
        counter: 0,
        cell: initial,
        locked: false,
        writers: Map::empty(),
        ticks: 0,
        committed: seq![initial],
    }
}

/// Whether `thread` is past the mutex in phase `phase`.
pub open spec fn in_phase<V>(w: World<V>, thread: nat, phase: WriterPhase) -> bool {
    w.writers.dom().contains(thread) && w.writers[thread].phase == phase
}

/// Whether an attempt to take the mutex without waiting fails in `w`.
pub open spec fn try_acquire_fails<V>(w: World<V>) -> bool {
    w.locked
}

/// Whether `e` can happen in `w`.
pub open spec fn enabled<V>(w: World<V>, e: Event<V>) -> bool {
    match e {
        Event::Acquire { writer } => !w.locked && !w.writers.dom().contains(writer),
        Event::Load { writer } => in_phase(w, writer, WriterPhase::Acquired),
        Event::Begin { writer } => in_phase(w, writer, WriterPhase::Loaded),
        Event::Store { writer, at, word } => in_phase(w, writer, WriterPhase::Writing) && 0 <= at
            < w.cell.len(),
        Event::End { writer } => in_phase(w, writer, WriterPhase::Writing),
        Event::Release { writer } => in_phase(w, writer, WriterPhase::Ended),
    }
}

/// The world after `e` has happened in `w`.
pub open spec fn step<V>(w: World<V>, e: Event<V>) -> World<V> {
    match e {
        Event::Acquire { writer } => World {
            locked: true,
            writers: w.writers.insert(
                writer,
                Writer { phase: WriterPhase::Acquired, found: w.counter, seq: w.counter },
            ),
            ..w
        },
        Event::Load { writer } => World {
            writers: w.writers.insert(
                writer,
                Writer { phase: WriterPhase::Loaded, found: w.counter, seq: w.counter },
            ),
            ..w
        },
        Event::Begin { writer } => World {
            counter: advanced(w.writers[writer].found),
            ticks: w.ticks + 1,
            writers: w.writers.insert(
                writer,
                Writer {
                    phase: WriterPhase::Writing,
                    seq: advanced(w.writers[writer].found),
                    ..w.writers[writer]
                },
            ),
            ..w
        },
        Event::Store { writer, at, word } => World { cell: w.cell.update(at, word), ..w },
        Event::End { writer } => World {
            counter: advanced(w.writers[writer].seq),
            ticks: w.ticks + 1,
            committed: w.committed.push(w.cell),
            writers: w.writers.insert(
                writer,
                Writer { phase: WriterPhase::Ended, ..w.writers[writer] },
            ),
            ..w
        },
        Event::Release { writer } => World {
            locked: false,
            writers: w.writers.remove(writer),
            ..w
        },
    }
}

/// The world after the first `k` of `events` have happened to a lock made
/// around `initial`.
pub open spec fn world_at<V>(initial: Seq<V>, events: Seq<Event<V>>, k: nat) -> World<V>
    decreases k,
{
    if k == 0 {
        initial_world(initial)
    } else {
        step(world_at(initial, events, (k - 1) as nat), events[k - 1])
    }
}

/// Whether `events` is a run of a lock made around `initial`: each event can
/// happen in the world that the events before it lead to.
pub open spec fn valid_run<V>(initial: Seq<V>, events: Seq<Event<V>>) -> bool {
    forall|k: nat|
        k < events.len() ==> enabled(#[trigger] world_at(initial, events, k), events[k as int])
}

/// What holds of every world of every run.
pub open spec fn coherent<V>(w: World<V>) -> bool {
    &&& w.counter == counter_after(w.ticks)
    &&& w.committed.len() > 0
    &&& w.cell.len() == w.committed.last().len()
    &&& w.ticks % 2 == 0 ==> w.cell == w.committed.last()
    &&& !w.locked ==> w.writers.dom() =~= Set::empty() && w.ticks % 2 == 0
    &&& w.locked ==> exists|t: nat| w.writers.dom().contains(t)
    &&& forall|a: nat, b: nat|
        w.writers.dom().contains(a) && w.writers.dom().contains(b) ==> a == b
    &&& forall|t: nat| #[trigger]
        w.writers.dom().contains(t) ==> {
            &&& w.locked
            &&& w.writers[t].phase == WriterPhase::Writing <==> w.ticks % 2 == 1
            &&& w.writers[t].phase == WriterPhase::Loaded ==> w.writers[t].found == w.counter
            &&& w.writers[t].phase == WriterPhase::Writing ==> w.writers[t].seq == w.counter
                && w.counter == advanced(w.writers[t].found)
        }
}

/// A step that can happen keeps a coherent world coherent.
pub proof fn step_keeps_coherent<V>(w: World<V>, e: Event<V>)
    requires
        coherent(w),
        enabled(w, e),
    ensures
        coherent(step(w, e)),
{
    let n = step(w, e);
    counter_after_next(w.ticks);
    match e {
        Event::Acquire { writer } => {
            assert(n.writers.dom().contains(writer));
        },
        Event::Load { writer } => {
            assert(n.writers.dom().contains(writer));
            assert(n.writers.dom() =~= w.writers.dom());
        },
        Event::Begin { writer } => {
            assert(n.writers.dom().contains(writer));
            assert(n.writers.dom() =~= w.writers.dom());
        },
        Event::Store { writer, at, word } => {
            assert(n.writers.dom().contains(writer));
        },
        Event::End { writer } => {
            assert(n.writers.dom().contains(writer));
            assert(n.writers.dom() =~= w.writers.dom());
        },
        Event::Release { writer } => {
            assert forall|t: nat| !n.writers.dom().contains(t) by {
                if w.writers.dom().contains(t) {
                    assert(t == writer);
                }
            }
            assert(n.writers.dom() =~= Set::empty());
        },
    }
}

/// Every world of a run is coherent.
pub proof fn run_is_coherent<V>(initial: Seq<V>, events: Seq<Event<V>>, k: nat)
    requires
        valid_run(initial, events),
        k <= events.len(),
    ensures
        coherent(world_at(initial, events, k)),
    decreases k,
{
    if k == 0 {
        assert(counter_after(0) == 0) by {
            assert(0int % modulus() == 0);
        }
    } else {
        let before = (k - 1) as nat;
        run_is_coherent(initial, events, before);
        assert(enabled(world_at(initial, events, before), events[before as int]));
        step_keeps_coherent(world_at(initial, events, before), events[before as int]);
    }
}

/// At no moment of a run are two threads past the mutex: at most one guard is
/// alive.
pub proof fn at_most_one_writer<V>(
    initial: Seq<V>,
    events: Seq<Event<V>>,
    k: nat,
    a: nat,
    b: nat,
)
    requires
        valid_run(initial, events),
        k <= events.len(),
        world_at(initial, events, k).writers.dom().contains(a),
        world_at(initial, events, k).writers.dom().contains(b),
    ensures
        a == b,
{
    run_is_coherent(initial, events, k);
}

/// At every moment of a run, an attempt to take the mutex without waiting
/// fails if and only if some thread is past the mutex.
pub proof fn try_acquire_fails_iff_writer_outstanding<V>(
    initial: Seq<V>,
    events: Seq<Event<V>>,
    k: nat,
)
    requires
        valid_run(initial, events),
        k <= events.len(),
    ensures
        try_acquire_fails(world_at(initial, events, k)) <==> exists|t: nat|
            world_at(initial, events, k).writers.dom().contains(t),
{
    run_is_coherent(initial, events, k);
    let w = world_at(initial, events, k);
    if !w.locked {
        assert(w.writers.dom() =~= Set::empty());
        assert(!exists|t: nat| w.writers.dom().contains(t));
    }
}

/// Right after the writer that was past the mutex has released it, the mutex
/// is free: any thread can take it, with or without waiting.
pub proof fn mutex_free_after_release<V>(
    initial: Seq<V>,
    events: Seq<Event<V>>,
    k: nat,
    writer: nat,
    next: nat,
)
    requires
        valid_run(initial, events),
        k < events.len(),
        events[k as int] == (Event::<V>::Release { writer }),
    ensures
        !try_acquire_fails(world_at(initial, events, k + 1)),
        enabled(world_at(initial, events, k + 1), Event::<V>::Acquire { writer: next }),
{
    run_is_coherent(initial, events, k + 1);
    let w = world_at(initial, events, k + 1);
    assert(w.writers.dom() =~= Set::empty());
}

/// A write that ends leaves the counter exactly two past the value that the
/// writer found when it began, modulo the number of counter values, and even
/// again.
pub proof fn completed_write_advances_by_two<V>(
    initial: Seq<V>,
    events: Seq<Event<V>>,
    k: nat,
    writer: nat,
)
    requires
        valid_run(initial, events),
        k < events.len(),
        events[k as int] == (Event::<V>::End { writer }),
    ensures
        world_at(initial, events, k + 1).counter == (world_at(
            initial,
            events,
            k,
        ).writers[writer].found + 2) % modulus(),
        !write_in_progress(world_at(initial, events, k + 1).counter),
        world_at(initial, events, k + 1).committed.last() == world_at(initial, events, k).cell,
{
    run_is_coherent(initial, events, k);
    run_is_coherent(initial, events, k + 1);
    let w = world_at(initial, events, k);
    assert(enabled(w, events[k as int]));
    two_advances_add_two(w.writers[writer].found);
    counter_after_next(world_at(initial, events, k + 1).ticks);
}

/// While no thread is past the mutex, the cell holds the value that the last
/// write left, or the value that the lock was made around if there was none.
pub proof fn value_at_rest_is_last_committed<V>(initial: Seq<V>, events: Seq<Event<V>>, k: nat)
    requires
        valid_run(initial, events),
        k <= events.len(),
        !world_at(initial, events, k).locked,
    ensures
        world_at(initial, events, k).cell == world_at(initial, events, k).committed.last(),
        !write_in_progress(world_at(initial, events, k).counter),
{
    run_is_coherent(initial, events, k);
    counter_after_next(world_at(initial, events, k).ticks);
}

/// Whether `later` holds all of `earlier` at its start.
pub open spec fn extends<A>(later: Seq<A>, earlier: Seq<A>) -> bool {
    earlier.len() <= later.len() && forall|n: int|
        0 <= n < earlier.len() ==> later[n] == earlier[n]
}

/// The counter never moves back, and no committed value is ever lost.
pub proof fn history_only_grows<V>(initial: Seq<V>, events: Seq<Event<V>>, i: nat, j: nat)
    requires
        valid_run(initial, events),
        i <= j <= events.len(),
    ensures
        world_at(initial, events, i).ticks <= world_at(initial, events, j).ticks,
        extends(world_at(initial, events, j).committed, world_at(initial, events, i).committed),
    decreases j,
{
    if i < j {
        history_only_grows(initial, events, i, (j - 1) as nat);
    }
}

/// Between two moments at which the counter has the same even number of
/// advances behind it, neither the cell nor the committed values change.
pub proof fn still_while_counter_rests<V>(initial: Seq<V>, events: Seq<Event<V>>, i: nat, j: nat)
    requires
        valid_run(initial, events),
        i <= j <= events.len(),
        world_at(initial, events, i).ticks == world_at(initial, events, j).ticks,
        world_at(initial, events, i).ticks % 2 == 0,
    ensures
        world_at(initial, events, j).cell == world_at(initial, events, i).cell,
        world_at(initial, events, j).committed == world_at(initial, events, i).committed,
    decreases j,
{
    if i < j {
        let before = (j - 1) as nat;
        history_only_grows(initial, events, i, before);
        history_only_grows(initial, events, before, j);
        still_while_counter_rests(initial, events, i, before);
        run_is_coherent(initial, events, before);
        assert(enabled(world_at(initial, events, before), events[before as int]));
    }
}

/// One attempt to read, given by the moments at which it touched the lock.
/// A moment is the number of events that have happened before it.
pub struct ReadAttempt {
    /// The moment of the first load of the counter.
    pub first: nat,
    /// For each word of the cell, the moment at which it was copied.
    pub copies: Seq<nat>,
    /// The moment of the second load of the counter.
    pub second: nat,
}

/// Whether `attempt` is an attempt on a run of `len` events of a lock whose
/// cell has `width` words: it copies every word, and all copies lie between
/// the two loads.
pub open spec fn attempt_fits(attempt: ReadAttempt, len: nat, width: nat) -> bool {
    &&& attempt.first <= attempt.second <= len
    &&& attempt.copies.len() == width
    &&& forall|i: int|
        0 <= i < attempt.copies.len() ==> attempt.first <= #[trigger] attempt.copies[i]
            <= attempt.second
}

/// The words that `attempt` copied, each as the cell held it at the moment of
/// its copy.
pub open spec fn copied<V>(initial: Seq<V>, events: Seq<Event<V>>, attempt: ReadAttempt) -> Seq<
    V,
> {
    Seq::new(
        attempt.copies.len(),
        |i: int| world_at(initial, events, attempt.copies[i]).cell[i],
    )
}

/// How `attempt` ends: the verdict on its copy from the two counter values
/// that it loaded.
pub open spec fn attempt_outcome<V>(
    initial: Seq<V>,
    events: Seq<Event<V>>,
    attempt: ReadAttempt,
) -> ReadOutcome<Seq<V>> {
    read_outcome(
        world_at(initial, events, attempt.first).counter,
        world_at(initial, events, attempt.second).counter,
        copied(initial, events, attempt),
    )
}

/// The width of the cell never changes.
pub proof fn width_is_fixed<V>(initial: Seq<V>, events: Seq<Event<V>>, k: nat)
    requires
        valid_run(initial, events),
        k <= events.len(),
    ensures
        world_at(initial, events, k).cell.len() == initial.len(),
    decreases k,
{
    if k > 0 {
        width_is_fixed(initial, events, (k - 1) as nat);
    }
}

/// However writers and a reader interleave, a read attempt that keeps its
/// copy, and during which the counter did not go once round all its values,
/// saw no write at all: from its first load to its second the counter was
/// even and stood still, no writer held a guard, and the copy is, word for
/// word, the one value that was last committed throughout.
pub proof fn consistent_read_is_last_committed<V>(
    initial: Seq<V>,
    events: Seq<Event<V>>,
    attempt: ReadAttempt,
)
    requires
        valid_run(initial, events),
        attempt_fits(attempt, events.len(), initial.len()),
        world_at(initial, events, attempt.second).ticks - world_at(
            initial,
            events,
            attempt.first,
        ).ticks < modulus(),
        attempt_outcome(initial, events, attempt) is Consistent,
    ensures
        attempt_outcome(initial, events, attempt) == ReadOutcome::Consistent(
            world_at(initial, events, attempt.first).committed.last(),
        ),
        world_at(initial, events, events.len()).committed.contains(
            world_at(initial, events, attempt.first).committed.last(),
        ),
        forall|k: nat|
            attempt.first <= k <= attempt.second ==> {
                let w = #[trigger] world_at(initial, events, k);
                &&& w.counter == world_at(initial, events, attempt.first).counter
                &&& !write_in_progress(w.counter)
                &&& w.cell == w.committed.last()
                &&& w.committed == world_at(initial, events, attempt.first).committed
                &&& forall|t: nat| !in_phase(w, t, WriterPhase::Writing)
            },
{
    let first = world_at(initial, events, attempt.first);
    let second = world_at(initial, events, attempt.second);
    run_is_coherent(initial, events, attempt.first);
    run_is_coherent(initial, events, attempt.second);
    history_only_grows(initial, events, attempt.first, attempt.second);
    same_counter_same_ticks(first.ticks, second.ticks);
    counter_after_next(first.ticks);
    assert(first.ticks % 2 == 0);
    assert forall|k: nat| attempt.first <= k <= attempt.second implies {
        let w = #[trigger] world_at(initial, events, k);
        &&& w.ticks == first.ticks
        &&& w.counter == first.counter
        &&& !write_in_progress(w.counter)
        &&& w.cell == first.cell
        &&& w.cell == w.committed.last()
        &&& w.committed == first.committed
        &&& forall|t: nat| !in_phase(w, t, WriterPhase::Writing)
    } by {
        history_only_grows(initial, events, attempt.first, k);
        history_only_grows(initial, events, k, attempt.second);
        still_while_counter_rests(initial, events, attempt.first, k);
        run_is_coherent(initial, events, k);
    }
    let copy = copied(initial, events, attempt);
    width_is_fixed(initial, events, attempt.first);
    assert(copy =~= first.cell) by {
        assert forall|i: int| 0 <= i < copy.len() implies copy[i] == first.cell[i] by {
            let at = attempt.copies[i];
            assert(world_at(initial, events, at).cell == first.cell);
        }
    }
    history_only_grows(initial, events, attempt.first, events.len());
    let last = world_at(initial, events, events.len()).committed;
    assert(last[first.committed.len() - 1] == first.committed.last());
}

/// A read attempt whose first load falls while a guard is alive is refused:
/// it copies nothing and reports the write.
pub proof fn attempt_during_write_is_refused<V>(
    initial: Seq<V>,
    events: Seq<Event<V>>,
    attempt: ReadAttempt,
    writer: nat,
)
    requires
        valid_run(initial, events),
        attempt_fits(attempt, events.len(), initial.len()),
        in_phase(world_at(initial, events, attempt.first), writer, WriterPhase::Writing),
    ensures
        attempt_outcome(initial, events, attempt) is WriteInProgress,
{
    run_is_coherent(initial, events, attempt.first);
    counter_after_next(world_at(initial, events, attempt.first).ticks);
}

/// Over a stretch of a run in which no write begins or ends, the counter
/// stands still.
pub proof fn counter_rests_without_begin_or_end<V>(
    initial: Seq<V>,
    events: Seq<Event<V>>,
    i: nat,
    j: nat,
)
    requires
        valid_run(initial, events),
        i <= j <= events.len(),
        forall|k: int| i <= k < j ==> !(#[trigger] events[k] is Begin) && !(events[k] is End),
    ensures
        world_at(initial, events, j).counter == world_at(initial, events, i).counter,
        world_at(initial, events, j).ticks == world_at(initial, events, i).ticks,
    decreases j,
{
    if i < j {
        counter_rests_without_begin_or_end(initial, events, i, (j - 1) as nat);
        assert(!(events[j - 1] is Begin) && !(events[j - 1] is End));
    }
}

/// A read attempt between whose loads no write begins or ends, and at whose
/// first load none is under way, keeps its copy.
pub proof fn undisturbed_attempt_is_kept<V>(
    initial: Seq<V>,
    events: Seq<Event<V>>,
    attempt: ReadAttempt,
)
    requires
        valid_run(initial, events),
        attempt_fits(attempt, events.len(), initial.len()),
        forall|t: nat|
            !in_phase(world_at(initial, events, attempt.first), t, WriterPhase::Writing),
        forall|k: int|
            attempt.first <= k < attempt.second ==> !(#[trigger] events[k] is Begin)
                && !(events[k] is End),
    ensures
        attempt_outcome(initial, events, attempt) is Consistent,
{
    run_is_coherent(initial, events, attempt.first);
    let first = world_at(initial, events, attempt.first);
    counter_after_next(first.ticks);
    assert(first.ticks % 2 == 0) by {
        if first.locked {
            let t = choose|t: nat| first.writers.dom().contains(t);
            assert(!in_phase(first, t, WriterPhase::Writing));
        }
    }
    counter_rests_without_begin_or_end(initial, events, attempt.first, attempt.second);
}

} // verus!
