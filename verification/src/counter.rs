//! The persistent counter's state machine: a non-negative machine word whose
//! decimal image is handed to the caller for persistence after every
//! successful mutation.

use vstd::prelude::*;

use crate::codec::{all_digits, dec_rep, dec_val, format_value, parse_value};
use crate::date::{month_delta, month_delta_defined, Date};

verus! {

/// Why a counter operation was refused. Every refusal leaves the counter
/// unchanged.
#[derive(Clone, Copy, PartialEq, Eq, Structural, Debug)]
pub enum CounterError {
    /// The persisted image is not the decimal text of a value that fits the
    /// platform word.
    InvalidContent,
    /// The addition would exceed the maximum representable value.
    Overflow,
    /// The subtraction would go below zero.
    Underflow,
    /// The dates handed to an update are out of range, out of order, or their
    /// months decrease without the span starting in December.
    InvalidDate,
}

/// The counter: a single non-negative value. Its abstract state is that value
/// as a mathematical natural.
#[derive(Debug)]
pub struct Counter {
    value: usize,
}

impl View for Counter {
    type V = nat;

    closed spec fn view(&self) -> nat {
        self.value as nat
    }
}

impl Counter {
    /// Loads a counter from the persisted image: the decimal text of its
    /// value. Succeeds exactly on non-empty all-digit content whose value
    /// fits the platform word.
    pub fn new(content: &[u8]) -> (r: Result<Counter, CounterError>)
        ensures
            r matches Ok(c) ==> content@.len() > 0 && all_digits(content@) && c@
                == dec_val(content@),
            r is Err <==> (content@.len() == 0 || !all_digits(content@) || dec_val(content@)
                > usize::MAX),
            r is Err ==> r == Err::<Counter, CounterError>(CounterError::InvalidContent),
    {
        match parse_value(content) {
            Some(v) => Ok(Counter { value: v }),
            None => Err(CounterError::InvalidContent),
        }
    }

    /// The current value.
    pub fn get(&self) -> (r: usize)
        ensures
            r == self@,
    {
        self.value
    }

    /// The image to persist: the decimal text of the current value.
    pub fn content(&self) -> (r: Vec<u8>)
        ensures
            r@ == dec_rep(self@),
    {
        format_value(self.value)
    }

    /// Adds `amount` to the value. Refuses, leaving the value unchanged,
    /// exactly when the sum would not fit the platform word.
    pub fn increase(&mut self, amount: usize) -> (r: Result<(), CounterError>)
        ensures
            old(self)@ + amount <= usize::MAX ==> r is Ok && final(self)@ == old(self)@ + amount,
            old(self)@ + amount > usize::MAX ==> r == Err::<(), CounterError>(
                CounterError::Overflow,
            ) && final(self)@ == old(self)@,
    {
        if amount <= usize::MAX - self.value {
            self.value = self.value + amount;
            Ok(())
        } else {
            Err(CounterError::Overflow)
        }
    }

    /// Subtracts `amount` from the value. Refuses, leaving the value
    /// unchanged, exactly when `amount` exceeds the current value.
    pub fn decrease(&mut self, amount: usize) -> (r: Result<(), CounterError>)
        ensures
            amount <= old(self)@ ==> r is Ok && final(self)@ == old(self)@ - amount,
            amount > old(self)@ ==> r == Err::<(), CounterError>(CounterError::Underflow)
                && final(self)@ == old(self)@,
    {
        if amount <= self.value {
            self.value = self.value - amount;
            Ok(())
        } else {
            Err(CounterError::Underflow)
        }
    }

    /// A periodic update tick: adds the month delta between the date the
    /// counter was last persisted and the current date. Refuses dates on
    /// which the delta is not meaningful, and refuses, unchanged, a delta
    /// that would overflow the value.
    pub fn update(&mut self, last_counted: Date, now: Date) -> (r: Result<(), CounterError>)
        ensures
            !month_delta_defined(last_counted, now) ==> r == Err::<(), CounterError>(
                CounterError::InvalidDate,
            ) && final(self)@ == old(self)@,
            month_delta_defined(last_counted, now) && old(self)@ + month_delta(last_counted, now)
                <= usize::MAX ==> r is Ok && final(self)@ == old(self)@ + month_delta(
                last_counted,
                now,
            ),
            month_delta_defined(last_counted, now) && old(self)@ + month_delta(last_counted, now)
                > usize::MAX ==> r == Err::<(), CounterError>(CounterError::Overflow)
                && final(self)@ == old(self)@,
    {
        if !last_counted.valid() || !now.valid() || !last_counted.le(&now) || (last_counted.month
            != 12 && now.month < last_counted.month) {
            return Err(CounterError::InvalidDate);
        }
        let delta: u32 = crate::date::month_diff(last_counted, now);
        self.increase(delta as usize)
    }

    /// A periodic update tick driven by the persisted file's modification
    /// time, given as milliseconds since the Unix epoch; the current date is
    /// taken from the system clock. Whatever the clock reads, success adds at
    /// most twelve, and a refusal leaves the value unchanged.
    pub fn update_from_millis(&mut self, last_counted_millis: i64) -> (r: Result<(), CounterError>)
        ensures
            r is Ok ==> old(self)@ <= final(self)@ <= old(self)@ + 12,
            r is Err ==> final(self)@ == old(self)@,
    {
        let last_counted = match crate::date::date_from_unix_millis(last_counted_millis) {
            Some(d) => d,
            None => { return Err(CounterError::InvalidDate) },
        };
        let now = crate::date::today();
        self.update(last_counted, now)
    }
}

/// Law: persistence round-trips. The decimal image of any counter value is
/// non-empty, all digits, and parses back to exactly that value, so a counter
/// reloaded from the image of the last successful mutation holds the value
/// that was persisted.
pub proof fn lemma_persist_roundtrip(v: usize)
    ensures
        dec_rep(v as nat).len() > 0,
        all_digits(dec_rep(v as nat)),
        dec_val(dec_rep(v as nat)) == v,
{
    crate::codec::lemma_dec_roundtrip(v as nat);
}

} // verus!
