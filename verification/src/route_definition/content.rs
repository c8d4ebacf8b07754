//! The actual content of a route node.

use vstd::prelude::*;

use crate::navigation::{NavigationTarget, TargetView};

verus! {

/// An opaque content handle.
///
/// The core only carries and compares these; the rendering collaborator owns
/// the mapping from handle to renderable unit.
pub type Component = u64;

/// The content of a route node.
#[derive(Clone, Debug)]
pub enum RouteContent {
    /// Indicates the absence of content.
    ///
    /// When used for an `index` it marks that no index content exists.
    ///
    /// When used for a fixed or dynamic route the node is transparent: a
    /// matched nested route renders in this node's slot.
    RcNone,
    /// A single content handle.
    RcComponent(Component),
    /// One main content handle and several named side handles.
    RcMulti(Component, Vec<(String, Component)>),
    /// Causes a redirect when the node is matched.
    ///
    /// Redirects are performed as a replace operation, so the
    /// redirected-from path won't become part of the history.
    RcRedirect(NavigationTarget),
}

/// The view of a slot map: each slot name as a sequence of characters,
/// paired with the handles collected for it, in order.
pub open spec fn slots_view(slots: Seq<(String, Vec<Component>)>) -> Seq<(Seq<char>, Seq<Component>)> {
    slots.map_values(|p: (String, Vec<Component>)| (p.0@, p.1@))
}

/// The view of a side-content list.
pub open spec fn sides_view(sides: Seq<(String, Component)>) -> Seq<(Seq<char>, Component)> {
    sides.map_values(|p: (String, Component)| (p.0@, p.1))
}

/// Adding one handle under a slot name: the handle is appended to the first
/// slot with that name, or a new slot is appended when the name is not
/// present yet.
pub open spec fn add_side_spec(
    slots: Seq<(Seq<char>, Seq<Component>)>,
    name: Seq<char>,
    comp: Component,
) -> Seq<(Seq<char>, Seq<Component>)>
    decreases slots.len(),
{
    if slots.len() == 0 {
        seq![(name, seq![comp])]
    } else if slots[0].0 == name {
        seq![(slots[0].0, slots[0].1.push(comp))] + slots.drop_first()
    } else {
        seq![slots[0]] + add_side_spec(slots.drop_first(), name, comp)
    }
}

/// Adding a whole side-content list, in order.
pub open spec fn add_sides_spec(
    slots: Seq<(Seq<char>, Seq<Component>)>,
    sides: Seq<(Seq<char>, Component)>,
) -> Seq<(Seq<char>, Seq<Component>)>
    decreases sides.len(),
{
    if sides.len() == 0 {
        slots
    } else {
        let prior = add_sides_spec(slots, sides.drop_last());
        add_side_spec(prior, sides.last().0, sides.last().1)
    }
}

/// What [`RouteContent::add_to_list`] does: the new main-handle list, the
/// new slot map, and the redirect target when the content is one.
pub open spec fn content_effect(
    mains: Seq<Component>,
    slots: Seq<(Seq<char>, Seq<Component>)>,
    content: RouteContent,
) -> (Seq<Component>, Seq<(Seq<char>, Seq<Component>)>, Option<TargetView>) {
    match content {
        RouteContent::RcNone => (mains, slots, None),
        RouteContent::RcComponent(comp) => (mains.push(comp), slots, None),
        RouteContent::RcMulti(main, sides) => (
            mains.push(main),
            add_sides_spec(slots, sides_view(sides@)),
            None,
        ),
        RouteContent::RcRedirect(target) => (mains, slots, Some(target@)),
    }
}

/// Append `comp` under `name`, starting the search for the slot at `index`.
fn add_side_from(
    slots: &mut Vec<(String, Vec<Component>)>,
    index: usize,
    name: &String,
    comp: Component,
)
    requires
        index <= old(slots)@.len(),
    ensures
        slots_view(final(slots)@) == slots_view(old(slots)@).take(index as int) + add_side_spec(
            slots_view(old(slots)@).skip(index as int),
            name@,
            comp,
        ),
    decreases old(slots)@.len() - index,
{
    let ghost pre = slots_view(old(slots)@);
    if index == slots.len() {
        let mut fresh: Vec<Component> = Vec::new();
        fresh.push(comp);
        slots.push((name.clone(), fresh));
        proof {
            assert(slots_view(slots@) =~= pre.take(index as int) + add_side_spec(
                pre.skip(index as int),
                name@,
                comp,
            ));
        }
    } else if slots[index].0 == *name {
        let mut entry = slots.remove(index);
        entry.1.push(comp);
        slots.insert(index, entry);
        proof {
            assert(pre.skip(index as int)[0].0 == name@);
            assert(slots_view(slots@) =~= pre.take(index as int) + add_side_spec(
                pre.skip(index as int),
                name@,
                comp,
            ));
        }
    } else {
        proof {
            assert(pre.skip(index as int)[0].0 != name@);
        }
        add_side_from(slots, index + 1, name, comp);
        proof {
            assert(pre.skip(index as int).drop_first() =~= pre.skip(index as int + 1));
            assert(slots_view(slots@) =~= pre.take(index as int) + add_side_spec(
                pre.skip(index as int),
                name@,
                comp,
            ));
        }
    }
}

impl RouteContent {
    /// Add the contained content to `components` or return a redirect.
    ///
    /// `components` is the pair of the main-handle list and the slot map.
    #[must_use]
    pub fn add_to_list(
        &self,
        components: &mut (Vec<Component>, Vec<(String, Vec<Component>)>),
    ) -> (redirect: Option<NavigationTarget>)
        ensures
            ({
                let (mains, slots, target) = content_effect(
                    old(components).0@,
                    slots_view(old(components).1@),
                    *self,
                );
                &&& final(components).0@ == mains
                &&& slots_view(final(components).1@) == slots
                &&& match redirect {
                    None => target is None,
                    Some(r) => target == Some(r@),
                }
            }),
    {
        match self {
            RouteContent::RcNone => None,
            RouteContent::RcComponent(comp) => {
                components.0.push(*comp);
                None
            },
            RouteContent::RcMulti(main, sides) => {
                components.0.push(*main);
                let ghost slots0 = slots_view(components.1@);
                let ghost sides_v = sides_view(sides@);
                let mut i: usize = 0;
                while i < sides.len()
                    invariant
                        i <= sides@.len(),
                        sides_v == sides_view(sides@),
                        components.0@ == old(components).0@.push(*main),
                        slots_view(components.1@) == add_sides_spec(slots0, sides_v.take(i as int)),
                        slots0 == slots_view(old(components).1@),
                    decreases sides@.len() - i,
                {
                    let ghost prior = slots_view(components.1@);
                    let (name, comp) = (&sides[i].0, sides[i].1);
                    add_side_from(&mut components.1, 0, name, comp);
                    proof {
                        assert(sides_v.take(i as int + 1).drop_last() =~= sides_v.take(i as int));
                        assert(prior.skip(0) =~= prior);
                        assert(slots_view(components.1@) =~= add_sides_spec(
                            slots0,
                            sides_v.take(i as int + 1),
                        ));
                    }
                    i += 1;
                }
                proof {
                    assert(sides_v.take(sides@.len() as int) =~= sides_v);
                }
                None
            },
            RouteContent::RcRedirect(target) => Some(target.duplicate()),
        }
    }

    /// Returns `true` if the route content is [`RcNone`].
    ///
    /// [`RcNone`]: RouteContent::RcNone
    #[must_use]
    pub fn is_rc_none(&self) -> (is_none: bool)
        ensures
            is_none == (*self is RcNone),
    {
        matches!(self, Self::RcNone)
    }
}

impl Default for RouteContent {
    fn default() -> (content: Self)
        ensures
            content is RcNone,
    {
        Self::RcNone
    }
}

} // verus!
