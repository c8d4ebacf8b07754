//! The matcher: a pure function from route tree, path and query to a
//! resolved navigation state or a redirect.

use vstd::prelude::*;

use crate::navigation::{opt_view, pairs_view, NavigationTarget, TargetView};
use crate::path::{build_path, join_relative, joined_path, relative_join, split_path, split_path_spec, starts_with_char, strs_view};
use crate::route_definition::content::{content_effect, slots_view};
use crate::route_definition::{Component, DynamicRoute, Route, RouteContent, Segment};
use crate::state::{lookup_pair, lookup_spec, RouterState};

verus! {

/// The observable outcome of matching: the collected main handles, slot
/// map, active names, bound parameters, and the redirect met, if any.
#[verifier::ext_equal]
pub struct MatchView {
    /// The ordered main content handles of the matched chain.
    pub mains: Seq<Component>,
    /// The slot-name to handle-list map of the matched chain.
    pub slots: Seq<(Seq<char>, Seq<Component>)>,
    /// The names of the matched routes, in matching order.
    pub names: Seq<Seq<char>>,
    /// The parameters bound by dynamic routes, in matching order.
    pub params: Seq<(Seq<char>, Seq<char>)>,
    /// The redirect that stopped matching, if one was met.
    pub redirect: Option<TargetView>,
}

/// The outcome before anything was matched.
pub open spec fn empty_match() -> MatchView {
    MatchView {
        mains: Seq::<Component>::empty(),
        slots: Seq::<(Seq<char>, Seq<Component>)>::empty(),
        names: Seq::<Seq<char>>::empty(),
        params: Seq::<(Seq<char>, Seq<char>)>::empty(),
        redirect: None,
    }
}

/// The outcome after adding a node's content.
pub open spec fn with_content(acc: MatchView, content: RouteContent) -> MatchView {
    let (mains, slots, redirect) = content_effect(acc.mains, acc.slots, content);
    MatchView { mains, slots, names: acc.names, params: acc.params, redirect }
}

/// The outcome after recording a node's name, when it has one.
pub open spec fn with_name(acc: MatchView, name: Option<String>) -> MatchView {
    match name {
        Some(n) => MatchView {
            mains: acc.mains,
            slots: acc.slots,
            names: acc.names.push(n@),
            params: acc.params,
            redirect: acc.redirect,
        },
        None => acc,
    }
}

/// The outcome after binding a path component under a key.
pub open spec fn with_param(acc: MatchView, key: Seq<char>, value: Seq<char>) -> MatchView {
    MatchView {
        mains: acc.mains,
        slots: acc.slots,
        names: acc.names,
        params: acc.params.push((key, value)),
        redirect: acc.redirect,
    }
}

/// The first index whose fixed key equals `segment`, or `-1`.
pub open spec fn first_fixed(fixed: Seq<(String, crate::route_definition::Route)>, segment: Seq<char>) -> int
    decreases fixed.len(),
{
    if fixed.len() == 0 {
        -1
    } else if fixed[0].0@ == segment {
        0
    } else {
        let rest = first_fixed(fixed.drop_first(), segment);
        if rest == -1 {
            -1
        } else {
            rest + 1
        }
    }
}

/// When no fixed key below `i` equals `segment`, the first match is decided
/// at or after `i`.
proof fn lemma_first_fixed_from(
    fixed: Seq<(String, crate::route_definition::Route)>,
    segment: Seq<char>,
    i: int,
)
    requires
        0 <= i <= fixed.len(),
        forall|j: int| 0 <= j < i ==> fixed[j].0@ != segment,
    ensures
        i < fixed.len() && fixed[i].0@ == segment ==> first_fixed(fixed, segment) == i,
        i == fixed.len() ==> first_fixed(fixed, segment) == -1,
    decreases fixed.len(),
{
    if fixed.len() == 0 || i == 0 {
    } else {
        let rest = fixed.drop_first();
        assert(forall|j: int| 0 <= j < i - 1 ==> rest[j].0@ != segment);
        lemma_first_fixed_from(rest, segment, i - 1);
        if i < fixed.len() {
            assert(rest[i - 1] == fixed[i]);
        }
    }
}

/// What matching decides, walking the tree one level per path segment.
///
/// At each level a fixed key equal to the next segment wins; otherwise a
/// dynamic variable binds the segment; otherwise a dynamic fallback ends the
/// walk without consuming the remainder; otherwise the walk stops with what
/// was accumulated. When the path is exhausted the index content of the
/// level is matched. A redirect content stops the walk at once.
pub open spec fn walk_spec(
    segment: Segment,
    segments: Seq<Seq<char>>,
    i: int,
    acc: MatchView,
) -> MatchView
    decreases segments.len() - i,
{
    if i < 0 || i >= segments.len() {
        with_content(acc, segment.index)
    } else {
        let here = segments[i];
        let found = first_fixed(segment.fixed@, here);
        if found >= 0 {
            let route = segment.fixed@[found].1;
            let acc1 = with_content(with_name(acc, route.name), route.content);
            if acc1.redirect is Some {
                acc1
            } else {
                match route.sub {
                    Some(sub) => walk_spec(sub, segments, i + 1, acc1),
                    None => acc1,
                }
            }
        } else {
            match segment.dynamic {
                DynamicRoute::DrVariable { name, key, content, sub } => {
                    let acc1 = with_content(with_name(with_param(acc, key@, here), name), content);
                    if acc1.redirect is Some {
                        acc1
                    } else {
                        match sub {
                            Some(sub) => walk_spec(*sub, segments, i + 1, acc1),
                            None => acc1,
                        }
                    }
                },
                DynamicRoute::DrFallback(content) => with_content(acc, content),
                DynamicRoute::DrNone => acc,
            }
        }
    }
}

/// The mutable accumulator of a tree walk.
pub struct MatchAcc {
    /// The main handles and the slot map collected so far.
    pub components: (Vec<Component>, Vec<(String, Vec<Component>)>),
    /// The names collected so far.
    pub names: Vec<String>,
    /// The parameters bound so far.
    pub parameters: Vec<(String, String)>,
}

/// The outcome an accumulator stands for; no redirect has been met while it
/// is still being filled.
pub open spec fn acc_model(acc: MatchAcc) -> MatchView {
    MatchView {
        mains: acc.components.0@,
        slots: slots_view(acc.components.1@),
        names: strs_view(acc.names@),
        params: pairs_view(acc.parameters@),
        redirect: None,
    }
}

impl MatchAcc {
    /// An empty accumulator.
    pub fn new() -> (acc: Self)
        ensures
            acc_model(acc) == empty_match(),
    {
        let acc = MatchAcc {
            components: (Vec::new(), Vec::new()),
            names: Vec::new(),
            parameters: Vec::new(),
        };
        proof {
            assert(acc_model(acc) =~= empty_match());
        }
        acc
    }
}

/// Walk the tree from `segment`, consuming `segments` from index `i`
/// onwards, filling `acc`; the redirect that stopped the walk is returned.
#[verifier::loop_isolation(false)]
pub(crate) fn walk(
    segment: &Segment,
    segments: &Vec<String>,
    i: usize,
    acc: &mut MatchAcc,
) -> (redirect: Option<NavigationTarget>)
    requires
        i <= segments@.len(),
    ensures
        ({
            let result = walk_spec(*segment, strs_view(segments@), i as int, acc_model(*old(acc)));
            &&& acc_model(*final(acc)) == (MatchView {
                redirect: None,
                ..result
            })
            &&& match redirect {
                Some(t) => result.redirect == Some(t@),
                None => result.redirect is None,
            }
        }),
    decreases segments@.len() - i,
{
    let ghost m0 = acc_model(*acc);
    let ghost segs = strs_view(segments@);
    if i == segments.len() {
        let redirect = segment.index.add_to_list(&mut acc.components);
        proof {
            assert(acc_model(*acc) =~= (MatchView {
                redirect: None,
                ..with_content(m0, segment.index)
            }));
        }
        return redirect;
    }
    let here = &segments[i];
    let mut j: usize = 0;
    while j < segment.fixed.len()
        invariant
            j <= segment.fixed@.len(),
            forall|k: int| 0 <= k < j ==> segment.fixed@[k].0@ != here@,
            *acc == *old(acc),
        decreases segment.fixed@.len() - j,
    {
        if segment.fixed[j].0 == *here {
            proof {
                lemma_first_fixed_from(segment.fixed@, here@, j as int);
            }
            let route = &segment.fixed[j].1;
            if let Some(n) = &route.name {
                acc.names.push(n.clone());
                proof {
                    assert(strs_view(acc.names@) =~= m0.names.push(n@));
                }
            }
            let ghost named = with_name(m0, route.name);
            proof {
                assert(acc_model(*acc) =~= (MatchView { redirect: None, ..named }));
            }
            let redirect = route.content.add_to_list(&mut acc.components);
            let ghost acc1 = with_content(named, route.content);
            proof {
                assert(acc_model(*acc) =~= (MatchView { redirect: None, ..acc1 }));
            }
            if redirect.is_some() {
                return redirect;
            }
            match &route.sub {
                Some(sub) => {
                    proof {
                        assert(acc_model(*acc) =~= acc1);
                    }
                    return walk(sub, segments, i + 1, acc);
                },
                None => {
                    return None;
                },
            }
        }
        j += 1;
    }
    proof {
        lemma_first_fixed_from(segment.fixed@, here@, segment.fixed@.len() as int);
    }
    match &segment.dynamic {
        DynamicRoute::DrVariable { name, key, content, sub } => {
            acc.parameters.push((key.clone(), here.clone()));
            proof {
                assert(pairs_view(acc.parameters@) =~= m0.params.push((key@, here@)));
            }
            let ghost bound = with_param(m0, key@, here@);
            if let Some(n) = name {
                acc.names.push(n.clone());
                proof {
                    assert(strs_view(acc.names@) =~= bound.names.push(n@));
                }
            }
            let ghost named = with_name(bound, *name);
            proof {
                assert(acc_model(*acc) =~= (MatchView { redirect: None, ..named }));
            }
            let redirect = content.add_to_list(&mut acc.components);
            let ghost acc1 = with_content(named, *content);
            proof {
                assert(acc_model(*acc) =~= (MatchView { redirect: None, ..acc1 }));
            }
            if redirect.is_some() {
                return redirect;
            }
            match sub {
                Some(sub) => {
                    proof {
                        assert(acc_model(*acc) =~= acc1);
                    }
                    walk(&**sub, segments, i + 1, acc)
                },
                None => None,
            }
        },
        DynamicRoute::DrFallback(content) => {
            let redirect = content.add_to_list(&mut acc.components);
            proof {
                assert(acc_model(*acc) =~= (MatchView {
                    redirect: None,
                    ..with_content(m0, *content)
                }));
            }
            redirect
        },
        DynamicRoute::DrNone => None,
    }
}

/// The chain of path segments leading to the route named `name`, searching
/// the fixed routes from index `j` onwards, then the dynamic rule.
///
/// A fixed route contributes its key; a dynamic variable route contributes
/// the value bound under its key in `params`, and is skipped entirely when
/// `params` binds none. `None` when no reachable route carries the name.
pub open spec fn name_chain_from(
    segment: Segment,
    j: int,
    name: Seq<char>,
    params: Seq<(Seq<char>, Seq<char>)>,
) -> Option<Seq<Seq<char>>>
    decreases segment, segment.fixed@.len() - j + 1,
{
    if j < 0 || j > segment.fixed@.len() {
        None
    } else if j < segment.fixed@.len() {
        let key = segment.fixed@[j].0;
        let route = segment.fixed@[j].1;
        if opt_view(route.name) == Some(name) {
            Some(seq![key@])
        } else {
            let deeper = match route.sub {
                Some(sub) => name_chain_from(sub, 0, name, params),
                None => None,
            };
            match deeper {
                Some(chain) => Some(seq![key@] + chain),
                None => name_chain_from(segment, j + 1, name, params),
            }
        }
    } else {
        match segment.dynamic {
            DynamicRoute::DrVariable { name: route_name, key, content: _, sub } => {
                match lookup_spec(params, key@) {
                    Some(value) => {
                        if opt_view(route_name) == Some(name) {
                            Some(seq![value])
                        } else {
                            match sub {
                                Some(sub) => match name_chain_from(*sub, 0, name, params) {
                                    Some(chain) => Some(seq![value] + chain),
                                    None => None,
                                },
                                None => None,
                            }
                        }
                    },
                    None => None,
                }
            },
            DynamicRoute::DrFallback(_) => None,
            DynamicRoute::DrNone => None,
        }
    }
}

/// Search for the route named `name` from the fixed index `j` onwards,
/// returning the substituted segment chain that leads to it.
#[verifier::loop_isolation(false)]
fn find_name_from(
    segment: &Segment,
    j: usize,
    name: &String,
    params: &Vec<(String, String)>,
) -> (chain: Option<Vec<String>>)
    requires
        j <= segment.fixed@.len(),
    ensures
        ({
            let expected = name_chain_from(*segment, j as int, name@, pairs_view(params@));
            match chain {
                Some(c) => expected == Some(strs_view(c@)),
                None => expected is None,
            }
        }),
    decreases segment, segment.fixed@.len() - j + 1,
{
    if j < segment.fixed.len() {
        let key = &segment.fixed[j].0;
        let route = &segment.fixed[j].1;
        let named_here = match &route.name {
            Some(n) => *n == *name,
            None => false,
        };
        if named_here {
            let mut chain: Vec<String> = Vec::new();
            chain.push(key.clone());
            proof {
                assert(strs_view(chain@) =~= seq![key@]);
            }
            return Some(chain);
        }
        let deeper = match &route.sub {
            Some(sub) => find_name_from(sub, 0, name, params),
            None => None,
        };
        match deeper {
            Some(mut c) => {
                c.insert(0, key.clone());
                proof {
                    assert(strs_view(c@) =~= seq![key@] + name_chain_from(
                        *segment,
                        j as int,
                        name@,
                        pairs_view(params@),
                    )->Some_0.skip(1));
                    assert(strs_view(c@) == name_chain_from(
                        *segment,
                        j as int,
                        name@,
                        pairs_view(params@),
                    )->Some_0);
                }
                Some(c)
            },
            None => find_name_from(segment, j + 1, name, params),
        }
    } else {
        match &segment.dynamic {
            DynamicRoute::DrVariable { name: route_name, key, content: _, sub } => {
                match lookup_pair(params, key) {
                    Some(value) => {
                        let named_here = match route_name {
                            Some(n) => *n == *name,
                            None => false,
                        };
                        if named_here {
                            let mut chain: Vec<String> = Vec::new();
                            chain.push(value.clone());
                            proof {
                                assert(strs_view(chain@) =~= seq![value@]);
                            }
                            return Some(chain);
                        }
                        match sub {
                            Some(sub) => match find_name_from(&**sub, 0, name, params) {
                                Some(mut c) => {
                                    c.insert(0, value.clone());
                                    proof {
                                        assert(strs_view(c@) =~= seq![value@] + name_chain_from(
                                            *segment,
                                            j as int,
                                            name@,
                                            pairs_view(params@),
                                        )->Some_0.skip(1));
                                        assert(strs_view(c@) == name_chain_from(
                                            *segment,
                                            j as int,
                                            name@,
                                            pairs_view(params@),
                                        )->Some_0);
                                    }
                                    Some(c)
                                },
                                None => None,
                            },
                            None => None,
                        }
                    },
                    None => None,
                }
            },
            DynamicRoute::DrFallback(_) => None,
            DynamicRoute::DrNone => None,
        }
    }
}

/// Resolve the route named `name` into the path that reaches it, binding
/// its dynamic segments from `parameters`.
///
/// `None` when no reachable route carries the name, including when a
/// dynamic segment on the way has no value in `parameters`.
pub fn resolve_name(routes: &Segment, name: &String, parameters: &Vec<(String, String)>) -> (path:
    Option<String>)
    ensures
        ({
            let expected = name_chain_from(*routes, 0, name@, pairs_view(parameters@));
            match path {
                Some(p) => expected is Some && p@ == joined_path(expected->Some_0),
                None => expected is None,
            }
        }),
{
    match find_name_from(routes, 0, name, parameters) {
        Some(chain) => Some(build_path(&chain)),
        None => None,
    }
}

/// The path written for the route named `name`, with the query string
/// appended after a `?` when the target carries one.
pub open spec fn named_path_spec(
    routes: Segment,
    name: Seq<char>,
    params: Seq<(Seq<char>, Seq<char>)>,
    query: Option<Seq<char>>,
) -> Option<Seq<char>> {
    match name_chain_from(routes, 0, name, params) {
        Some(chain) => Some(
            match query {
                Some(q) => joined_path(chain) + seq!['?'] + q,
                None => joined_path(chain),
            },
        ),
        None => None,
    }
}

/// What resolving a target against the current path yields, at the level of
/// views.
pub enum TargetOutcome {
    /// A concrete path to apply to the history.
    Path(Seq<char>),
    /// An external URL, to hand off when the provider supports it.
    External(Seq<char>),
    /// The name of a route that the tree does not reach.
    Unresolved(Seq<char>),
}

/// How a target resolves to a concrete path: an internal path stands for
/// itself when absolute and is joined onto the current path otherwise; a
/// named target is written from the tree; an external target is handed
/// through.
pub open spec fn target_path_spec(
    target: TargetView,
    current_path: Seq<char>,
    routes: Segment,
) -> TargetOutcome {
    match target {
        TargetView::InternalTarget(p) => TargetOutcome::Path(
            if p.len() > 0 && p[0] == '/' {
                p
            } else {
                relative_join(current_path, p)
            },
        ),
        TargetView::NamedTarget(name, params, query) => match named_path_spec(
            routes,
            name,
            params,
            query,
        ) {
            Some(p) => TargetOutcome::Path(p),
            None => TargetOutcome::Unresolved(name),
        },
        TargetView::ExternalTarget(url) => TargetOutcome::External(url),
    }
}

/// A resolved navigation target.
pub enum TargetResolution {
    /// A concrete path to apply to the history.
    Path(String),
    /// An external URL, to hand off when the provider supports it.
    External(String),
    /// The name of a route that the tree does not reach.
    Unresolved(String),
}

/// Resolve a target against the current path into a concrete path, an
/// external URL, or an unresolved name.
pub fn resolve_target(
    target: &NavigationTarget,
    current_path: &str,
    routes: &Segment,
) -> (resolved: TargetResolution)
    ensures
        ({
            let outcome = target_path_spec(target@, current_path@, *routes);
            match resolved {
                TargetResolution::Path(p) => outcome == TargetOutcome::Path(p@),
                TargetResolution::External(u) => outcome == TargetOutcome::External(u@),
                TargetResolution::Unresolved(n) => outcome == TargetOutcome::Unresolved(n@),
            }
        }),
{
    match target {
        NavigationTarget::InternalTarget(p) => {
            if starts_with_char(p.as_str(), '/') {
                TargetResolution::Path(p.clone())
            } else {
                TargetResolution::Path(join_relative(current_path, p.as_str()))
            }
        },
        NavigationTarget::NamedTarget(name, params, query) => {
            match resolve_name(routes, name, params) {
                Some(path) => match query {
                    Some(q) => {
                        let with_query = path.concat("?").concat(q.as_str());
                        proof {
                            reveal_strlit("?");
                            assert(with_query@ =~= named_path_spec(
                                *routes,
                                name@,
                                pairs_view(params@),
                                opt_view(*query),
                            )->Some_0);
                        }
                        TargetResolution::Path(with_query)
                    },
                    None => TargetResolution::Path(path),
                },
                None => TargetResolution::Unresolved(name.clone()),
            }
        },
        NavigationTarget::ExternalTarget(url) => TargetResolution::External(url.clone()),
    }
}

/// What the matcher returns: a settled snapshot, or the redirect to perform
/// as a replace.
pub enum Resolution {
    /// The settled navigation state.
    Settled(RouterState),
    /// The redirect met while matching; the caller must perform it as a
    /// replace, never a push.
    Redirect(NavigationTarget),
}

/// Whether a snapshot is exactly the one matching decides for the given
/// inputs: its content, names and parameters are those of the tree walk,
/// and path, prefix, query and capability flags are carried verbatim.
pub open spec fn resolved_state_matches(
    state: RouterState,
    routes: Segment,
    path: Seq<char>,
    query: Option<Seq<char>>,
    prefix: Seq<char>,
    can_go_back: bool,
    can_go_forward: bool,
    can_external: bool,
) -> bool {
    let outcome = walk_spec(routes, split_path_spec(path), 0, empty_match());
    &&& outcome.redirect is None
    &&& state.components.0@ == outcome.mains
    &&& slots_view(state.components.1@) == outcome.slots
    &&& strs_view(state.names@) == outcome.names
    &&& pairs_view(state.parameters@) == outcome.params
    &&& state.path@ == path
    &&& state.prefix@ == prefix
    &&& opt_view(state.query) == query
    &&& state.can_go_back == can_go_back
    &&& state.can_go_forward == can_go_forward
    &&& state.can_external == can_external
}

/// Matching is deterministic: the matcher holds no state between calls, so
/// any two snapshots resolved from the same tree, path, query and flags
/// agree on every observable field.
pub proof fn lemma_resolve_deterministic(
    first: RouterState,
    second: RouterState,
    routes: Segment,
    path: Seq<char>,
    query: Option<Seq<char>>,
    prefix: Seq<char>,
    can_go_back: bool,
    can_go_forward: bool,
    can_external: bool,
)
    requires
        resolved_state_matches(first, routes, path, query, prefix, can_go_back, can_go_forward, can_external),
        resolved_state_matches(second, routes, path, query, prefix, can_go_back, can_go_forward, can_external),
    ensures
        first.components.0@ == second.components.0@,
        slots_view(first.components.1@) == slots_view(second.components.1@),
        strs_view(first.names@) == strs_view(second.names@),
        pairs_view(first.parameters@) == pairs_view(second.parameters@),
        first.path@ == second.path@,
        first.prefix@ == second.prefix@,
        opt_view(first.query) == opt_view(second.query),
        first.can_go_back == second.can_go_back,
        first.can_go_forward == second.can_go_forward,
        first.can_external == second.can_external,
{
}

/// Fixed precedence: when a fixed key equals the path segment at hand, the
/// walk takes the fixed route, and the segment's dynamic rule — variable or
/// fallback — has no bearing on the outcome.
pub proof fn lemma_fixed_precedence(
    segment: Segment,
    other_dynamic: DynamicRoute,
    segments: Seq<Seq<char>>,
    i: int,
    acc: MatchView,
)
    requires
        0 <= i < segments.len(),
        first_fixed(segment.fixed@, segments[i]) >= 0,
    ensures
        walk_spec(segment, segments, i, acc) == walk_spec(
            Segment { index: segment.index, fixed: segment.fixed, dynamic: other_dynamic },
            segments,
            i,
            acc,
        ),
{
}

/// Index content is matched exactly when the path is exhausted at the
/// segment's level, never as a fallback for an unmatched remainder.
pub proof fn lemma_index_on_exhausted(
    segment: Segment,
    segments: Seq<Seq<char>>,
    i: int,
    acc: MatchView,
)
    requires
        i >= segments.len(),
    ensures
        walk_spec(segment, segments, i, acc) == with_content(acc, segment.index),
{
}

/// With path segments remaining but no fixed match and no dynamic rule,
/// the walk stops with what was accumulated: in particular the index
/// content is not matched.
pub proof fn lemma_unmatched_remainder(
    segment: Segment,
    segments: Seq<Seq<char>>,
    i: int,
    acc: MatchView,
)
    requires
        0 <= i < segments.len(),
        first_fixed(segment.fixed@, segments[i]) == -1,
        segment.dynamic is DrNone,
    ensures
        walk_spec(segment, segments, i, acc) == acc,
{
}

/// Resolve `path` against the route tree.
///
/// The walk starts at the root of `routes` with the first path segment. The
/// query never participates in matching; it, the prefix and the three
/// capability flags are carried verbatim into the snapshot. The matcher
/// holds no state between calls: the outcome is a function of the arguments
/// alone.
pub fn resolve(
    routes: &Segment,
    path: &str,
    query: Option<String>,
    prefix: String,
    can_go_back: bool,
    can_go_forward: bool,
    can_external: bool,
) -> (resolution: Resolution)
    ensures
        ({
            let outcome = walk_spec(*routes, split_path_spec(path@), 0, empty_match());
            match resolution {
                Resolution::Redirect(target) => outcome.redirect == Some(target@),
                Resolution::Settled(state) => resolved_state_matches(
                    state,
                    *routes,
                    path@,
                    opt_view(query),
                    prefix@,
                    can_go_back,
                    can_go_forward,
                    can_external,
                ),
            }
        }),
{
    let segments = split_path(path);
    let mut acc = MatchAcc::new();
    let redirect = walk(routes, &segments, 0, &mut acc);
    match redirect {
        Some(target) => Resolution::Redirect(target),
        None => {
            let MatchAcc { components, names, parameters } = acc;
            Resolution::Settled(
                RouterState {
                    can_external,
                    can_go_back,
                    can_go_forward,
                    components,
                    names,
                    path: path.to_owned(),
                    prefix,
                    query,
                    parameters,
                },
            )
        },
    }
}

} // verus!
