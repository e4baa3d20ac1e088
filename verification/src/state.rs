//! Application state: a shared value handed to handlers, immutable after
//! construction.

use std::rc::Rc;
use vstd::prelude::*;

verus! {

/// Application state.
pub struct State<S> {
    inner: Rc<S>,
}

impl<S> State<S> {
    /// The state value held.
    pub closed spec fn spec_ref(&self) -> S {
        *self.inner
    }

    pub fn new(state: S) -> (r: State<S>)
        ensures
            r.spec_ref() == state,
    {
        State { inner: Rc::new(state) }
    }

    pub fn get_ref(&self) -> (r: &S)
        ensures
            *r == self.spec_ref(),
    {
        &*self.inner
    }
}

} // verus!
