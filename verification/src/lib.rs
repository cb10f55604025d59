//! A persistent counter core: a non-negative integer mirrored on disk as its
//! decimal text, together with the calendar-month heuristic that decides how
//! much a periodic update tick adds to it.
//!
//! File and network handling live outside this crate; the library works on
//! plain values (bytes of the persisted image, timestamps in milliseconds,
//! calendar dates) and states exactly what each operation returns.

pub mod codec;
pub mod counter;
pub mod date;
