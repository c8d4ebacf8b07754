//! Data types for declaring which content belongs to which path.
//!
//! A route tree is purely declarative: built once, read-only thereafter.
//! Validation (unique names, reachable fallbacks) is the caller's
//! responsibility and is surfaced lazily while matching.

use vstd::prelude::*;

pub mod content;

pub use content::{Component, RouteContent};

verus! {

/// A collection of route alternatives for a single path segment position.
#[derive(Debug)]
pub struct Segment {
    /// The index content, matched when no further path component is
    /// present.
    pub index: RouteContent,
    /// Fixed routes, matched when a key equals the path component exactly.
    /// The keys must be unique.
    pub fixed: Vec<(String, Route)>,
    /// The dynamic rule, tried when no fixed route matches.
    pub dynamic: DynamicRoute,
}

/// A route node reached via a fixed edge.
#[derive(Debug)]
pub struct Route {
    /// The optional name of the route, used for name-based navigation. A
    /// name must be unique across the whole tree; this is a caller
    /// invariant, not enforced by construction.
    pub name: Option<String>,
    /// The content added when the route is matched.
    pub content: RouteContent,
    /// The routes for the next path segment.
    pub sub: Option<Segment>,
}

/// A dynamic route rule.
#[derive(Debug)]
pub enum DynamicRoute {
    /// The absence of an actual dynamic route.
    DrNone,
    /// A rule that binds the actual path component to a named parameter.
    DrVariable {
        /// The optional unique name of the route.
        name: Option<String>,
        /// The key the bound path component is recorded under.
        key: String,
        /// The content added when the rule is matched.
        content: RouteContent,
        /// The routes for the next path segment.
        sub: Option<Box<Segment>>,
    },
    /// A terminal fallback, matched when nothing else is; the remaining
    /// path components are not consumed.
    DrFallback(RouteContent),
}

impl Default for Segment {
    /// An empty segment: no index content, no fixed routes, no dynamic
    /// rule.
    fn default() -> (segment: Self)
        ensures
            segment.index is RcNone,
            segment.fixed@.len() == 0,
            segment.dynamic is DrNone,
    {
        Self { index: RouteContent::RcNone, fixed: Vec::new(), dynamic: DynamicRoute::DrNone }
    }
}

impl Default for Route {
    /// A nameless route without content or nested segment.
    fn default() -> (route: Self)
        ensures
            route.name is None,
            route.content is RcNone,
            route.sub is None,
    {
        Self { name: None, content: RouteContent::RcNone, sub: None }
    }
}

impl Default for DynamicRoute {
    /// The absence of a dynamic route.
    fn default() -> (dynamic: Self)
        ensures
            dynamic is DrNone,
    {
        Self::DrNone
    }
}

impl Segment {
    /// A segment with the given parts.
    pub fn new(index: RouteContent, fixed: Vec<(String, Route)>, dynamic: DynamicRoute) -> (
        segment: Self)
        ensures
            segment == (Segment { index, fixed, dynamic }),
    {
        Self { index, fixed, dynamic }
    }
}

impl Route {
    /// A route with the given parts.
    pub fn new(name: Option<String>, content: RouteContent, sub: Option<Segment>) -> (route: Self)
        ensures
            route == (Route { name, content, sub }),
    {
        Self { name, content, sub }
    }
}

} // verus!
