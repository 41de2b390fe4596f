//! Accumulators of the OpenTelemetry aggregation strategies: counters sum
//! the values inserted, gauges keep the last one. `U` is the unit the
//! closed value is reported with.

use std::marker::PhantomData;
use vstd::prelude::*;

verus! {

/// An integer value that a summing accumulator can hold.
pub trait SumValue: Sized + Copy {
    /// The value as a mathematical integer.
    spec fn value(self) -> int;

    /// Whether an integer can be held by this type.
    spec fn representable(v: int) -> bool;

    /// Zero.
    fn zero() -> (r: Self)
        ensures
            r.value() == 0,
    ;

    /// The sum of two values; the sum must be representable.
    fn add_value(self, other: Self) -> (r: Self)
        requires
            Self::representable(self.value() + other.value()),
        ensures
            r.value() == self.value() + other.value(),
    ;
}

impl SumValue for u64 {
    open spec fn value(self) -> int {
        self as int
    }

    open spec fn representable(v: int) -> bool {
        0 <= v <= u64::MAX
    }

    fn zero() -> (r: Self) {
        0
    }

    fn add_value(self, other: Self) -> (r: Self) {
        self + other
    }
}

impl SumValue for u32 {
    open spec fn value(self) -> int {
        self as int
    }

    open spec fn representable(v: int) -> bool {
        0 <= v <= u32::MAX
    }

    fn zero() -> (r: Self) {
        0
    }

    fn add_value(self, other: Self) -> (r: Self) {
        self + other
    }
}

impl SumValue for i64 {
    open spec fn value(self) -> int {
        self as int
    }

    open spec fn representable(v: int) -> bool {
        i64::MIN <= v <= i64::MAX
    }

    fn zero() -> (r: Self) {
        0
    }

    fn add_value(self, other: Self) -> (r: Self) {
        self + other
    }
}

impl SumValue for i32 {
    open spec fn value(self) -> int {
        self as int
    }

    open spec fn representable(v: int) -> bool {
        i32::MIN <= v <= i32::MAX
    }

    fn zero() -> (r: Self) {
        0
    }

    fn add_value(self, other: Self) -> (r: Self) {
        self + other
    }
}

/// Accumulator of a monotonic counter: the running sum.
pub struct OtelCounterAccum<T, U> {
    sum: T,
    _u: PhantomData<U>,
}

impl<T: SumValue, U> Default for OtelCounterAccum<T, U> {
    fn default() -> (r: Self)
        ensures
            r.total() == 0,
    {
        OtelCounterAccum { sum: T::zero(), _u: PhantomData }
    }
}

impl<T: SumValue, U> OtelCounterAccum<T, U> {
    /// The sum of the values inserted so far.
    pub closed spec fn total(&self) -> int {
        self.sum.value()
    }

    /// Adds a value to the sum.
    pub fn insert(&mut self, value: T)
        requires
            T::representable(old(self).total() + value.value()),
        ensures
            final(self).total() == old(self).total() + value.value(),
    {
        self.sum = self.sum.add_value(value);
    }

    /// The sum, reported on a monotonic counter.
    pub fn close(self) -> (r: T)
        ensures
            r.value() == self.total(),
    {
        self.sum
    }
}

/// Accumulator of an up-down counter: the running sum of signed deltas.
pub struct OtelUpDownCounterAccum<T, U> {
    sum: T,
    _u: PhantomData<U>,
}

impl<T: SumValue, U> Default for OtelUpDownCounterAccum<T, U> {
    fn default() -> (r: Self)
        ensures
            r.total() == 0,
    {
        OtelUpDownCounterAccum { sum: T::zero(), _u: PhantomData }
    }
}

impl<T: SumValue, U> OtelUpDownCounterAccum<T, U> {
    /// The sum of the values inserted so far.
    pub closed spec fn total(&self) -> int {
        self.sum.value()
    }

    /// Adds a (possibly negative) value to the sum.
    pub fn insert(&mut self, value: T)
        requires
            T::representable(old(self).total() + value.value()),
        ensures
            final(self).total() == old(self).total() + value.value(),
    {
        self.sum = self.sum.add_value(value);
    }

    /// The sum, reported on an up-down counter.
    pub fn close(self) -> (r: T)
        ensures
            r.value() == self.total(),
    {
        self.sum
    }
}

/// Accumulator of a gauge: the last value inserted, if any.
pub struct OtelGaugeAccum<T, U> {
    last: Option<T>,
    _u: PhantomData<U>,
}

impl<T, U> Default for OtelGaugeAccum<T, U> {
    fn default() -> (r: Self)
        ensures
            r.last_value() is None,
    {
        OtelGaugeAccum { last: None, _u: PhantomData }
    }
}

impl<T, U> OtelGaugeAccum<T, U> {
    /// The last value inserted, if any.
    pub closed spec fn last_value(&self) -> Option<T> {
        self.last
    }

    /// Replaces the kept value.
    pub fn insert(&mut self, value: T)
        ensures
            final(self).last_value() == Some(value),
    {
        self.last = Some(value);
    }

    /// The last value inserted, reported on a gauge; `None`, and no metric,
    /// when nothing was inserted.
    pub fn close(self) -> (r: Option<T>)
        ensures
            r == self.last_value(),
    {
        self.last
    }
}

} // verus!
