//! The in-memory reference implementation of the history stack.

use vstd::prelude::*;

use crate::history::RoutingHistory;

verus! {

/// A [`RoutingHistory`] that keeps the whole stack in memory.
///
/// It has no external-navigation capability.
pub struct MemoryHistory<C> {
    current: C,
    past: Vec<C>,
    future: Vec<C>,
}

impl<C> MemoryHistory<C> {
    /// Create a history that rests on `initial`, with nothing to go back or
    /// forward to.
    pub fn new(initial: C) -> (hist: Self)
        ensures
            hist.past() == Seq::<C>::empty(),
            hist.present() == initial,
            hist.future() == Seq::<C>::empty(),
            !hist.external_capability(),
    {
        Self { current: initial, past: Vec::new(), future: Vec::new() }
    }
}

impl<C: Default> Default for MemoryHistory<C> {
    fn default() -> (hist: Self)
        ensures
            hist.past() == Seq::<C>::empty(),
            hist.future() == Seq::<C>::empty(),
    {
        Self::new(C::default())
    }
}

impl<C> RoutingHistory<C> for MemoryHistory<C> {
    closed spec fn past(&self) -> Seq<C> {
        self.past@
    }

    closed spec fn present(&self) -> C {
        self.current
    }

    closed spec fn future(&self) -> Seq<C> {
        self.future@
    }

    closed spec fn external_capability(&self) -> bool {
        false
    }

    fn current(&self) -> (state: &C) {
        &self.current
    }

    fn push(&mut self, state: C) {
        let mut state = state;
        core::mem::swap(&mut self.current, &mut state);
        self.past.push(state);
        self.future.clear();
    }

    fn replace(&mut self, state: C) {
        self.current = state;
    }

    fn can_go_back(&self) -> (can: bool) {
        self.past.len() != 0
    }

    fn go_back(&mut self) {
        match self.past.pop() {
            Some(previous) => {
                let mut previous = previous;
                core::mem::swap(&mut self.current, &mut previous);
                self.future.push(previous);
            },
            None => {},
        }
    }

    fn can_go_forward(&self) -> (can: bool) {
        self.future.len() != 0
    }

    fn go_forward(&mut self) {
        match self.future.pop() {
            Some(next) => {
                let mut next = next;
                core::mem::swap(&mut self.current, &mut next);
                self.past.push(next);
            },
            None => {},
        }
    }

    fn can_external(&self) -> (can: bool) {
        false
    }

    fn external(&mut self, url: String) {
    }
}

} // verus!
