//! A value that remembers what it was when it was last looked at.

use vstd::prelude::*;
use vstd::std_specs::cmp::PartialEqSpec;

verus! {

/// A current value (`main`) beside the value seen at the last call of
/// [`Value::changed`] (`past`).
pub struct Value<T> {
    pub main: T,
    pub past: T,
}

impl<T: Clone + PartialEq> Value<T> {
    /// Starts with both sides equal to `value`.
    pub fn new(value: T) -> (v: Self)
        ensures
            v.past == value,
            cloned(value, v.main),
    {
        Self { main: value.clone(), past: value }
    }

    /// Tells whether `main` differs from what was last observed, and
    /// records `main` as observed. What "differs" means is what `==` means
    /// for `T`, where `T` says what that is.
    pub fn changed(&mut self) -> (r: bool)
        ensures
            T::obeys_eq_spec() ==> r == !old(self).main.eq_spec(&old(self).past),
            final(self).main == old(self).main,
            r ==> cloned(old(self).main, final(self).past),
            !r ==> final(self).past == old(self).past,
    {
        if self.main != self.past {
            self.past = self.main.clone();
            return true;
        }
        false
    }

    /// A copy of the current value.
    pub fn main(&self) -> (r: T)
        ensures
            cloned(self.main, r),
    {
        self.main.clone()
    }
}

} // verus!
