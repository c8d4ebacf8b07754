//! A client-side navigation engine.
//!
//! Given a declared tree of routes and an incoming path (plus an optional
//! query string), the library determines which route nodes are active,
//! extracts path parameters, tracks forward/backward navigation history, and
//! republishes the resulting state to interested observers whenever
//! navigation occurs.

pub mod history;
pub mod matcher;
pub mod navigation;
pub mod path;
pub mod route_definition;
pub mod routing;
pub mod service;
pub mod state;

pub use history::RoutingHistory;
pub use history::memory::MemoryHistory;
pub use matcher::{resolve, Resolution};
pub use navigation::NavigationTarget;
pub use route_definition::{Component, DynamicRoute, Route, RouteContent, Segment};
pub use routing::RouteUrl;
pub use service::{RoutingError, RoutingMessage, RoutingService};
pub use state::RouterState;
