//! The read-only snapshot of the routing information, produced once per
//! settled navigation.

use vstd::prelude::*;

use crate::navigation::{opt_view, pairs_view, NavigationTarget, TargetView};
use crate::path::{
    is_prefix, last_segment, starts_with_char, str_starts_with, strs_view, tail_segment,
};
use crate::route_definition::Component;

verus! {

/// The current routing information.
///
/// A snapshot is immutable: the navigation service replaces it wholesale and
/// never mutates it in place.
#[derive(Debug)]
pub struct RouterState {
    /// Whether the service can handle external navigation targets.
    pub can_external: bool,
    /// Whether there is a prior path to go back to.
    pub can_go_back: bool,
    /// Whether there is a later path to go forward to.
    pub can_go_forward: bool,
    /// The content handles of the active routes: the ordered main handles
    /// and the slot-name to handle-list map.
    pub components: (Vec<Component>, Vec<(String, Vec<Component>)>),
    /// The names of the currently active routes, in matching order.
    pub names: Vec<String>,
    /// The current path.
    pub path: String,
    /// The current prefix.
    pub prefix: String,
    /// The current query string, if present.
    pub query: Option<String>,
    /// The parameters read from the path, as bound by the active routes.
    pub parameters: Vec<(String, String)>,
}

/// The value under `key` in an ordered key/value list: the first pair with
/// that key decides.
pub open spec fn lookup_spec(
    pairs: Seq<(Seq<char>, Seq<char>)>,
    key: Seq<char>,
) -> Option<Seq<char>>
    decreases pairs.len(),
{
    if pairs.len() == 0 {
        None
    } else if pairs[0].0 == key {
        Some(pairs[0].1)
    } else {
        lookup_spec(pairs.drop_first(), key)
    }
}

/// When no pair below `i` holds `key`, the lookup is decided at or after
/// `i`.
proof fn lemma_lookup_from(pairs: Seq<(Seq<char>, Seq<char>)>, key: Seq<char>, i: int)
    requires
        0 <= i <= pairs.len(),
        forall|j: int| 0 <= j < i ==> pairs[j].0 != key,
    ensures
        i < pairs.len() && pairs[i].0 == key ==> lookup_spec(pairs, key) == Some(pairs[i].1),
        i == pairs.len() ==> lookup_spec(pairs, key) is None,
    decreases pairs.len(),
{
    if pairs.len() == 0 || i == 0 {
    } else {
        let rest = pairs.drop_first();
        assert(forall|j: int| 0 <= j < i - 1 ==> rest[j].0 != key);
        lemma_lookup_from(rest, key, i - 1);
        if i < pairs.len() {
            assert(rest[i - 1] == pairs[i]);
        }
    }
}

/// Find the value bound under `key` in an ordered key/value list.
pub fn lookup_pair<'a>(pairs: &'a Vec<(String, String)>, key: &String) -> (value: Option<
    &'a String,
>)
    ensures
        match value {
            Some(v) => lookup_spec(pairs_view(pairs@), key@) == Some(v@),
            None => lookup_spec(pairs_view(pairs@), key@) is None,
        },
{
    let mut i: usize = 0;
    while i < pairs.len()
        invariant
            i <= pairs@.len(),
            forall|j: int| 0 <= j < i ==> pairs_view(pairs@)[j].0 != key@,
        decreases pairs@.len() - i,
    {
        if pairs[i].0 == *key {
            proof {
                lemma_lookup_from(pairs_view(pairs@), key@, i as int);
            }
            return Some(&pairs[i].1);
        }
        i += 1;
    }
    proof {
        lemma_lookup_from(pairs_view(pairs@), key@, pairs@.len() as int);
    }
    None
}

/// Whether the list of names holds `name`.
pub fn contains_name(names: &Vec<String>, name: &String) -> (found: bool)
    ensures
        found == strs_view(names@).contains(name@),
{
    let mut i: usize = 0;
    while i < names.len()
        invariant
            i <= names@.len(),
            forall|j: int| 0 <= j < i ==> strs_view(names@)[j] != name@,
        decreases names@.len() - i,
    {
        if names[i] == *name {
            proof {
                assert(strs_view(names@)[i as int] == name@);
            }
            return true;
        }
        i += 1;
    }
    proof {
        assert(!strs_view(names@).contains(name@));
    }
    false
}

/// What [`RouterState::is_active`] decides, over the views of the current
/// path, active names and bound parameters.
pub open spec fn is_active_spec(
    path: Seq<char>,
    names: Seq<Seq<char>>,
    parameters: Seq<(Seq<char>, Seq<char>)>,
    target: TargetView,
    exact: bool,
) -> bool {
    match target {
        TargetView::InternalTarget(t) => {
            if exact {
                path == t
            } else if t.len() > 0 && t[0] == '/' {
                is_prefix(t, path)
            } else {
                tail_segment(path) == t
            }
        },
        TargetView::NamedTarget(name, vars, _) => names.contains(name) && (exact
            ==> forall|i: int|
                0 <= i < vars.len() ==> lookup_spec(parameters, vars[i].0) == Some(vars[i].1)),
        TargetView::ExternalTarget(_) => false,
    }
}

/// Whether a snapshot is the empty one: no capabilities, no content, the
/// empty path.
pub open spec fn is_empty_snapshot(state: RouterState) -> bool {
    &&& !state.can_external
    &&& !state.can_go_back
    &&& !state.can_go_forward
    &&& state.components.0@ == Seq::<Component>::empty()
    &&& state.components.1@ == Seq::<(String, Vec<Component>)>::empty()
    &&& state.names@ == Seq::<String>::empty()
    &&& state.path@ == Seq::<char>::empty()
    &&& state.prefix@ == Seq::<char>::empty()
    &&& state.query is None
    &&& state.parameters@ == Seq::<(String, String)>::empty()
}

impl RouterState {
    /// An empty snapshot: no capabilities, no content, the empty path.
    pub fn new() -> (state: Self)
        ensures
            is_empty_snapshot(state),
    {
        Self {
            can_external: false,
            can_go_back: false,
            can_go_forward: false,
            components: (Vec::new(), Vec::new()),
            names: Vec::new(),
            path: String::new(),
            prefix: String::new(),
            query: None,
            parameters: Vec::new(),
        }
    }

    /// Checks if the provided `target` is currently active.
    ///
    /// For an internal target with `exact`, the current path must equal the
    /// target path exactly. Without `exact`, an absolute target path (one
    /// starting with `/`) must be a prefix of the current path, and any
    /// other target path must equal the segment after the last `/` of the
    /// current path.
    ///
    /// For a named target, the name must be among the active names; with
    /// `exact`, every target parameter must also be bound to the same value
    /// by the current parameters.
    ///
    /// For an external target the answer is always `false`.
    #[must_use]
    #[verifier::loop_isolation(false)]
    pub fn is_active(&self, target: &NavigationTarget, exact: bool) -> (active: bool)
        ensures
            active == is_active_spec(
                self.path@,
                strs_view(self.names@),
                pairs_view(self.parameters@),
                target@,
                exact,
            ),
    {
        match target {
            NavigationTarget::InternalTarget(path) => {
                if exact {
                    return self.path == *path;
                }
                // absolute path
                if starts_with_char(path.as_str(), '/') {
                    return str_starts_with(self.path.as_str(), path.as_str());
                }
                // relative path
                let tail = last_segment(self.path.as_str());
                tail == *path
            },
            NavigationTarget::NamedTarget(name, vars, _) => {
                if !contains_name(&self.names, name) {
                    return false;
                }
                if exact {
                    let ghost params = pairs_view(self.parameters@);
                    let ghost vars_v = pairs_view(vars@);
                    let mut i: usize = 0;
                    while i < vars.len()
                        invariant
                            i <= vars@.len(),
                            params == pairs_view(self.parameters@),
                            vars_v == pairs_view(vars@),
                            forall|j: int|
                                0 <= j < i ==> lookup_spec(params, vars_v[j].0) == Some(
                                    vars_v[j].1,
                                ),
                        decreases vars@.len() - i,
                    {
                        let (key, expected) = (&vars[i].0, &vars[i].1);
                        proof {
                            assert(vars_v[i as int] == (vars@[i as int].0@, vars@[i as int].1@));
                        }
                        match lookup_pair(&self.parameters, key) {
                            Some(value) => {
                                if *value != *expected {
                                    proof {
                                        assert(lookup_spec(params, vars_v[i as int].0) != Some(
                                            vars_v[i as int].1,
                                        ));
                                    }
                                    return false;
                                }
                            },
                            None => {
                                proof {
                                    assert(lookup_spec(params, vars_v[i as int].0) != Some(
                                        vars_v[i as int].1,
                                    ));
                                }
                                return false;
                            },
                        }
                        i += 1;
                    }
                }
                true
            },
            NavigationTarget::ExternalTarget(_) => false,
        }
    }
}

/// The key/value pairs encoded by a query string in the
/// `application/x-www-form-urlencoded` format, in order, or `None` when the
/// string cannot be parsed as such.
pub uninterp spec fn query_pairs_of(query: Seq<char>) -> Option<Seq<(Seq<char>, Seq<char>)>>;

/// Relies on serde_urlencoded::from_str: parses an
/// x-www-form-urlencoded string into its key/value pairs, in order; the
/// result depends on the input string alone.
#[verifier::external_body]
fn parse_query_pairs(query: &str) -> (pairs: Option<Vec<(String, String)>>)
    ensures
        match pairs {
            Some(list) => query_pairs_of(query@) == Some(pairs_view(list@)),
            None => query_pairs_of(query@) is None,
        },
{
    serde_urlencoded::from_str::<Vec<(String, String)>>(query).ok()
}

impl RouterState {
    /// Get the query parameters as an ordered key/value list.
    ///
    /// `None` when the snapshot has no query string, and when the query
    /// string cannot be parsed.
    #[must_use]
    pub fn query_params(&self) -> (params: Option<Vec<(String, String)>>)
        ensures
            match self.query {
                None => params is None,
                Some(q) => match params {
                    Some(list) => query_pairs_of(q@) == Some(pairs_view(list@)),
                    None => query_pairs_of(q@) is None,
                },
            },
    {
        if let Some(query) = &self.query {
            parse_query_pairs(query.as_str())
        } else {
            None
        }
    }
}

} // verus!
