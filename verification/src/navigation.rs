//! Descriptions of "where to go", resolved to a concrete path before being
//! applied to the history.

use vstd::prelude::*;

verus! {

/// A caller's description of a navigation destination.
#[derive(Clone, Debug)]
pub enum NavigationTarget {
    /// A path within the route tree. Absolute if it starts with `/`,
    /// otherwise relative to the current path.
    InternalTarget(String),
    /// A named route, found by its unique name, with an ordered list of
    /// key/value parameter overrides and an optional query string.
    NamedTarget(String, Vec<(String, String)>, Option<String>),
    /// An opaque URL outside the managed route tree. Only valid if the
    /// active history provider declares external-navigation support.
    ExternalTarget(String),
}

/// The view of a parameter list: each pair as the views of its key and
/// value.
pub open spec fn pairs_view(pairs: Seq<(String, String)>) -> Seq<(Seq<char>, Seq<char>)> {
    pairs.map_values(|p: (String, String)| (p.0@, p.1@))
}

/// The view of an optional string.
pub open spec fn opt_view(s: Option<String>) -> Option<Seq<char>> {
    match s {
        Some(s) => Some(s@),
        None => None,
    }
}

/// The observable content of a [`NavigationTarget`]: the same shape with
/// every string replaced by its view.
pub enum TargetView {
    InternalTarget(Seq<char>),
    NamedTarget(Seq<char>, Seq<(Seq<char>, Seq<char>)>, Option<Seq<char>>),
    ExternalTarget(Seq<char>),
}

impl View for NavigationTarget {
    type V = TargetView;

    open spec fn view(&self) -> TargetView {
        match self {
            NavigationTarget::InternalTarget(path) => TargetView::InternalTarget(path@),
            NavigationTarget::NamedTarget(name, params, query) => TargetView::NamedTarget(
                name@,
                pairs_view(params@),
                opt_view(*query),
            ),
            NavigationTarget::ExternalTarget(url) => TargetView::ExternalTarget(url@),
        }
    }
}

impl NavigationTarget {
    /// An owned copy with the same observable content.
    pub fn duplicate(&self) -> (copy: Self)
        ensures
            copy@ == self@,
    {
        match self {
            NavigationTarget::InternalTarget(path) => NavigationTarget::InternalTarget(
                path.clone(),
            ),
            NavigationTarget::NamedTarget(name, params, query) => NavigationTarget::NamedTarget(
                name.clone(),
                duplicate_pairs(params),
                duplicate_opt(query),
            ),
            NavigationTarget::ExternalTarget(url) => NavigationTarget::ExternalTarget(url.clone()),
        }
    }
}

/// An owned copy of a key/value list with the same observable content.
pub fn duplicate_pairs(pairs: &Vec<(String, String)>) -> (copy: Vec<(String, String)>)
    ensures
        pairs_view(copy@) == pairs_view(pairs@),
        copy@.len() == pairs@.len(),
{
    let mut copy: Vec<(String, String)> = Vec::new();
    let mut i: usize = 0;
    while i < pairs.len()
        invariant
            i <= pairs@.len(),
            copy@.len() == i,
            forall|j: int|
                0 <= j < i ==> copy@[j].0@ == pairs@[j].0@ && copy@[j].1@ == pairs@[j].1@,
        decreases pairs@.len() - i,
    {
        let (k, v) = (&pairs[i].0, &pairs[i].1);
        copy.push((k.clone(), v.clone()));
        i += 1;
    }
    proof {
        assert(pairs_view(copy@) =~= pairs_view(pairs@));
    }
    copy
}

/// An owned copy of an optional string with the same observable content.
pub fn duplicate_opt(s: &Option<String>) -> (copy: Option<String>)
    ensures
        opt_view(copy) == opt_view(*s),
{
    match s {
        Some(s) => Some(s.clone()),
        None => None,
    }
}

} // verus!
