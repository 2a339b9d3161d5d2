use vstd::prelude::*;

verus! {

/// Exclusive-access cell for state shared by the kernel on a single hart.
///
/// Access goes through `exclusive_access`, which hands out the one mutable
/// view of the wrapped value. The view is tied to a mutable borrow of the
/// cell, so a second, overlapping access (a nested borrow, or one kept
/// across a context switch by the same frame) is refused when the kernel is
/// compiled instead of being detected at run time. This is a discipline for
/// non-reentrant, single-hart execution only: with several harts it must be
/// replaced by a real mutual-exclusion primitive.
pub struct UPSafeCell<T> {
    inner: T,
}

impl<T> UPSafeCell<T> {
    /// The wrapped value.
    pub closed spec fn value(&self) -> T {
        self.inner
    }

    /// Wraps `value`. The caller attests that the cell is only ever used
    /// from one hart.
    pub fn new(value: T) -> (r: Self)
        ensures
            r.value() == value,
    {
        Self { inner: value }
    }

    /// The exclusive mutable view of the wrapped value; whatever is written
    /// through it is the cell's value once the view is dropped.
    pub fn exclusive_access(&mut self) -> (r: &mut T)
        ensures
            *r == old(self).value(),
            final(self).value() == *final(r),
    {
        &mut self.inner
    }

    /// A shared view of the wrapped value.
    pub fn shared_access(&self) -> (r: &T)
        ensures
            *r == self.value(),
    {
        &self.inner
    }
}

} // verus!
