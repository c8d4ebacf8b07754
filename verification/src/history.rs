//! The abstract back/forward/current history stack, pluggable per host
//! environment.

use vstd::prelude::*;

pub mod memory;

verus! {

/// An abstract history stack: a sequence of `past` entries, a single
/// `current` entry and a sequence of `future` entries.
///
/// The three spec functions expose that model; every operation's contract is
/// stated over them. `past` and `future` are ordered oldest-first, so the
/// entry reached by one `go_back` is the last element of `past`, and the
/// entry reached by one `go_forward` is the last element of `future`.
pub trait RoutingHistory<C>: Sized {
    /// The entries navigated away from, oldest first.
    spec fn past(&self) -> Seq<C>;

    /// The entry the history currently rests on.
    spec fn present(&self) -> C;

    /// The entries that can be reached by going forward, with the nearest
    /// one last.
    spec fn future(&self) -> Seq<C>;

    /// Whether this provider can hand navigation off to targets outside the
    /// managed history (for example a full URL in a host browser).
    spec fn external_capability(&self) -> bool;

    /// Read the current entry. No side effect.
    fn current(&self) -> (state: &C)
        ensures
            *state == self.present(),
    ;

    /// Navigate to a new entry: the current entry moves onto `past`, and all
    /// `future` entries are discarded (a new branch discards forward
    /// history).
    fn push(&mut self, state: C)
        ensures
            final(self).past() == old(self).past().push(old(self).present()),
            final(self).present() == state,
            final(self).future() == Seq::<C>::empty(),
            final(self).external_capability() == old(self).external_capability(),
    ;

    /// Overwrite the current entry; `past` and `future` are untouched.
    fn replace(&mut self, state: C)
        ensures
            final(self).past() == old(self).past(),
            final(self).present() == state,
            final(self).future() == old(self).future(),
            final(self).external_capability() == old(self).external_capability(),
    ;

    /// Whether `go_back` would change the current entry.
    fn can_go_back(&self) -> (can: bool)
        ensures
            can == (self.past().len() != 0),
    ;

    /// Move one entry back: the last `past` entry becomes current, and the
    /// old current entry is put onto `future`. No-op when `past` is empty.
    fn go_back(&mut self)
        ensures
            old(self).past().len() == 0 ==> {
                &&& final(self).past() == old(self).past()
                &&& final(self).present() == old(self).present()
                &&& final(self).future() == old(self).future()
            },
            old(self).past().len() != 0 ==> {
                &&& final(self).past() == old(self).past().drop_last()
                &&& final(self).present() == old(self).past().last()
                &&& final(self).future() == old(self).future().push(old(self).present())
            },
            final(self).external_capability() == old(self).external_capability(),
    ;

    /// Whether `go_forward` would change the current entry.
    fn can_go_forward(&self) -> (can: bool)
        ensures
            can == (self.future().len() != 0),
    ;

    /// Move one entry forward: the last `future` entry becomes current, and
    /// the old current entry is put onto `past`. No-op when `future` is
    /// empty.
    fn go_forward(&mut self)
        ensures
            old(self).future().len() == 0 ==> {
                &&& final(self).past() == old(self).past()
                &&& final(self).present() == old(self).present()
                &&& final(self).future() == old(self).future()
            },
            old(self).future().len() != 0 ==> {
                &&& final(self).past() == old(self).past().push(old(self).present())
                &&& final(self).present() == old(self).future().last()
                &&& final(self).future() == old(self).future().drop_last()
            },
            final(self).external_capability() == old(self).external_capability(),
    ;

    /// Whether `external` may be called.
    fn can_external(&self) -> (can: bool)
        ensures
            can == self.external_capability(),
    ;

    /// Hand navigation off to a target outside the managed history. The
    /// managed stack itself is left untouched.
    fn external(&mut self, url: String)
        requires
            old(self).external_capability(),
        ensures
            *final(self) == *old(self),
    ;
}

} // verus!
