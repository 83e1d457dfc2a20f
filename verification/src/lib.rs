//! A sequence lock: a reader-writer lock for read-mostly data in which
//! readers never block a writer.
//!
//! A writer takes a mutex, makes the sequence counter odd, changes the data
//! and makes the counter even again. A reader copies the data between two
//! loads of the counter and keeps the copy only if both loads gave the same
//! even value; otherwise it tries again.
//!
//! - `sequence`: the arithmetic of the counter.
//! - `reader`: what a reader concludes from the two values it loaded.
//! - `lock`: the lock itself and its write guard.
//! - `protocol`: the protocol as a transition system, with proofs that in
//!   every interleaving of writers and readers at most one writer is at work
//!   and an ended write has moved the counter by two, and that a copy that is
//!   kept is a value that a write left whole, as long as the counter does not
//!   go once round all its values between the two loads of the reader. A
//!   reader that is overtaken by exactly that many advances finds the counter
//!   as it left it, and may keep a copy that mixes two writes.

mod mutex;
pub mod lock;
pub mod protocol;
pub mod reader;
pub mod sequence;

pub use lock::SeqLock;
pub use lock::SeqLockGuard;
pub use reader::ReadOutcome;
