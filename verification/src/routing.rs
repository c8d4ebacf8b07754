//! Traits connecting user-defined route descriptions to the navigation
//! engine.

use vstd::prelude::*;

use std::collections::HashMap;

verus! {

/// A user-defined route description that can say what it routes to.
pub trait RouteContent<T> {
    /// The routed-to value for this description.
    fn route(&self) -> T;
}

/// A user-defined route description that can be read from and written back
/// to a URL path.
pub trait RouteUrl: Sized {
    /// Build the description from the path `segments` and the `parameters`
    /// bound while matching.
    fn from_url(segments: &[&str], parameters: HashMap<String, String>) -> Self;

    /// Write the description back into a URL path, filling `parameters` with
    /// the values it binds. `None` means the description adds no path
    /// segment of its own.
    fn to_url(&self, parameters: &mut HashMap<String, String>) -> Option<String>;
}

} // verus!
