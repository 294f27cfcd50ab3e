//! Shared handles to host-side values: reference-counted, immutable
//! from the verified side. An embedder attaches host bookkeeping to the
//! values behind these handles outside this core.

use vstd::prelude::*;
use std::rc::Rc;

verus! {

/// Host bookkeeping attached to a shared value; `finalize` runs when
/// the embedder drops the last handle. Implemented by embedders, not by
/// this library.
pub trait HostInfo {
    /// Called before the value the information is attached to goes
    /// away.
    fn finalize(&mut self);
}

/// A shared, reference-counted handle to a value.
#[derive(Debug)]
pub struct Ref<T>(Rc<T>);

impl<T> Ref<T> {
    /// The value the handle shares.
    pub closed spec fn value(self) -> T {
        *self.0
    }

    /// Wraps a value in a fresh shared handle.
    pub fn new(item: T) -> (r: Ref<T>)
        ensures
            r.value() == item,
    {
        Ref(Rc::new(item))
    }

    /// Relies on std's Rc, which dereferences to the shared value.
    #[verifier::external_body]
    pub fn borrow(&self) -> (r: &T)
        ensures
            *r == self.value(),
    {
        &*self.0
    }

    /// Relies on std's Rc::ptr_eq: true exactly when both handles share
    /// one allocation — in which case they hold the same value. Only
    /// that sound direction is promised: handle identity itself has no
    /// model here, so nothing fixes the result for distinct handles
    /// with equal values.
    #[verifier::external_body]
    pub fn ptr_eq(&self, other: &Ref<T>) -> (r: bool)
        ensures
            r ==> self.value() == other.value(),
    {
        Rc::ptr_eq(&self.0, &other.0)
    }
}

impl<T> Clone for Ref<T> {
    /// Relies on std's Rc::clone: the new handle shares the same value.
    #[verifier::external_body]
    fn clone(&self) -> (r: Self)
        ensures
            r.value() == self.value(),
    {
        Ref(self.0.clone())
    }
}

} // verus!
