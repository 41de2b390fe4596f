//! Closing values: turning a live value (a counter, a timer, a pool) into the
//! value that is written out.

use vstd::prelude::*;

verus! {

/// Close a given value.
///
/// This gives an opportunity to do things like stopping timers or collecting
/// fanned-in data.
pub trait CloseValue {
    /// The type produced by closing this value.
    type Closed;

    /// Close the value.
    fn close(self) -> Self::Closed;
}

/// Close a value without taking ownership.
///
/// Types implementing this trait get `CloseValue` through the blanket
/// implementation below.
pub trait CloseValueRef {
    /// The type produced by closing this value.
    type Closed;

    /// Close the value.
    fn close_ref(&self) -> Self::Closed;
}

impl<T: CloseValueRef> CloseValue for T {
    type Closed = <T as CloseValueRef>::Closed;

    /// Closes through `close_ref`: the result is one that `close_ref` gives
    /// for this value.
    fn close(self) -> (r: Self::Closed)
        ensures
            call_ensures(T::close_ref, (&self,), r),
    {
        self.close_ref()
    }
}

} // verus!
