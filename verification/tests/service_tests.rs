use router_core::history::memory::MemoryHistory;
use router_core::navigation::NavigationTarget;
use router_core::route_definition::{DynamicRoute, Route, RouteContent, Segment};
use router_core::service::{RoutingError, RoutingMessage, RoutingService};

fn fixed(key: &str, route: Route) -> (String, Route) {
    (String::from(key), route)
}

fn leaf(key: &str, name: &str, component: u64) -> (String, Route) {
    fixed(
        key,
        Route {
            name: Some(String::from(name)),
            content: RouteContent::RcComponent(component),
            sub: None,
        },
    )
}

fn test_routes() -> Segment {
    Segment {
        index: RouteContent::RcComponent(1),
        fixed: vec![
            leaf("test", "test", 2),
            fixed(
                "old",
                Route {
                    name: None,
                    content: RouteContent::RcRedirect(NavigationTarget::InternalTarget(
                        String::from("/test"),
                    )),
                    sub: None,
                },
            ),
        ],
        dynamic: DynamicRoute::DrNone,
    }
}

fn new_service() -> RoutingService<MemoryHistory<String>> {
    let history = MemoryHistory::new(String::from("/"));
    RoutingService::new(history, test_routes(), String::new(), 8)
}

#[test]
fn initial_drain_resolves_the_current_path() {
    let mut service = new_service();
    let outcome = service.run_until_empty(&vec![]);
    assert!(outcome.errors.is_empty());
    assert_eq!(service.state().path, "/");
    assert_eq!(service.state().components.0, vec![1]);
    assert!(!service.state().can_go_back);
}

#[test]
fn push_navigates_and_enables_go_back() {
    let mut service = new_service();
    service.submit(RoutingMessage::Push(NavigationTarget::InternalTarget(String::from("/test"))));
    let outcome = service.run_until_empty(&vec![]);
    assert!(outcome.errors.is_empty());
    assert_eq!(service.state().path, "/test");
    assert_eq!(service.state().components.0, vec![2]);
    assert!(service.state().can_go_back);
    assert!(!service.state().can_go_forward);

    service.submit(RoutingMessage::GoBack);
    service.run_until_empty(&vec![]);
    assert_eq!(service.state().path, "/");
    assert!(!service.state().can_go_back);
    assert!(service.state().can_go_forward);

    service.submit(RoutingMessage::GoForward);
    service.run_until_empty(&vec![]);
    assert_eq!(service.state().path, "/test");
}

#[test]
fn push_with_query_splits_path_and_query() {
    let mut service = new_service();
    service.submit(RoutingMessage::Push(NavigationTarget::InternalTarget(String::from(
        "/test?bold=false",
    ))));
    service.run_until_empty(&vec![]);
    assert_eq!(service.state().path, "/test");
    assert_eq!(service.state().query, Some(String::from("bold=false")));
    let params = service.state().query_params().expect("query should parse");
    assert_eq!(params, vec![(String::from("bold"), String::from("false"))]);
}

#[test]
fn redirect_is_applied_as_replace() {
    let mut service = new_service();
    service.submit(RoutingMessage::Push(NavigationTarget::InternalTarget(String::from("/old"))));
    let outcome = service.run_until_empty(&vec![]);
    assert!(outcome.errors.is_empty());
    assert_eq!(service.state().path, "/test");

    // the redirected-from path never became part of the history
    service.submit(RoutingMessage::GoBack);
    service.run_until_empty(&vec![]);
    assert_eq!(service.state().path, "/");
}

#[test]
fn replace_does_not_change_motion_flags() {
    let mut service = new_service();
    service.submit(RoutingMessage::Push(NavigationTarget::InternalTarget(String::from("/test"))));
    service.run_until_empty(&vec![]);
    let back_before = service.state().can_go_back;
    let forward_before = service.state().can_go_forward;

    service.submit(RoutingMessage::Replace(NavigationTarget::InternalTarget(String::from("/"))));
    service.run_until_empty(&vec![]);
    assert_eq!(service.state().can_go_back, back_before);
    assert_eq!(service.state().can_go_forward, forward_before);
}

#[test]
fn redirect_cycle_reports_limit_error() {
    let routes = Segment {
        index: RouteContent::RcNone,
        fixed: vec![
            fixed(
                "a",
                Route {
                    name: None,
                    content: RouteContent::RcRedirect(NavigationTarget::InternalTarget(
                        String::from("/b"),
                    )),
                    sub: None,
                },
            ),
            fixed(
                "b",
                Route {
                    name: None,
                    content: RouteContent::RcRedirect(NavigationTarget::InternalTarget(
                        String::from("/a"),
                    )),
                    sub: None,
                },
            ),
        ],
        dynamic: DynamicRoute::DrNone,
    };
    let history = MemoryHistory::new(String::from("/a"));
    let mut service = RoutingService::new(history, routes, String::new(), 4);
    let outcome = service.run_until_empty(&vec![]);
    assert_eq!(outcome.errors.len(), 1);
    assert!(matches!(outcome.errors[0], RoutingError::RedirectLimit(_)));
    // no snapshot was published
    assert_eq!(service.state().path, "");
}

#[test]
fn unresolved_name_is_reported_and_not_navigated() {
    let mut service = new_service();
    service.run_until_empty(&vec![]);
    service.submit(RoutingMessage::Push(NavigationTarget::NamedTarget(
        String::from("missing"),
        vec![],
        None,
    )));
    let outcome = service.run_until_empty(&vec![]);
    assert_eq!(outcome.errors.len(), 1);
    match &outcome.errors[0] {
        RoutingError::UnresolvedName(name) => assert_eq!(name, "missing"),
        other => panic!("unexpected error {other:?}"),
    }
    assert_eq!(service.state().path, "/");
    assert!(!service.state().can_go_back);
}

#[test]
fn named_push_navigates() {
    let mut service = new_service();
    service.submit(RoutingMessage::Push(NavigationTarget::NamedTarget(
        String::from("test"),
        vec![],
        None,
    )));
    let outcome = service.run_until_empty(&vec![]);
    assert!(outcome.errors.is_empty());
    assert_eq!(service.state().path, "/test");
}

#[test]
fn external_target_without_capability_is_an_error() {
    let mut service = new_service();
    service.submit(RoutingMessage::Push(NavigationTarget::ExternalTarget(String::from(
        "https://example.com/",
    ))));
    let outcome = service.run_until_empty(&vec![]);
    assert_eq!(outcome.errors.len(), 1);
    assert!(matches!(outcome.errors[0], RoutingError::ExternalUnsupported(_)));
    assert_eq!(service.state().path, "/");
}

#[test]
fn subscriber_is_notified_once_per_drain() {
    let mut service = new_service();
    service.submit(RoutingMessage::Subscribe(7));
    let live = vec![7];
    let outcome = service.run_until_empty(&live);
    assert_eq!(outcome.notify, vec![7]);

    // still subscribed: notified on the next drain too
    let outcome = service.run_until_empty(&live);
    assert_eq!(outcome.notify, vec![7]);
}

#[test]
fn duplicate_subscription_is_notified_once() {
    let mut service = new_service();
    service.submit(RoutingMessage::Subscribe(7));
    service.submit(RoutingMessage::Subscribe(7));
    service.submit(RoutingMessage::Subscribe(9));
    let outcome = service.run_until_empty(&vec![7, 9]);
    assert_eq!(outcome.notify, vec![7, 9]);
}

#[test]
fn dead_subscriber_is_pruned_from_the_registry() {
    let mut service = new_service();
    service.submit(RoutingMessage::Subscribe(7));
    let outcome = service.run_until_empty(&vec![7]);
    assert_eq!(outcome.notify, vec![7]);

    // the subscriber became unreachable: not notified, and removed
    let outcome = service.run_until_empty(&vec![]);
    assert!(outcome.notify.is_empty());

    // even though it would be live again, it is no longer registered
    let outcome = service.run_until_empty(&vec![7]);
    assert!(outcome.notify.is_empty());
}

#[test]
fn replace_with_named_target_rewrites_current_entry() {
    let mut service = new_service();
    service.run_until_empty(&vec![]);
    service.submit(RoutingMessage::Replace(NavigationTarget::NamedTarget(
        String::from("test"),
        vec![],
        None,
    )));
    let outcome = service.run_until_empty(&vec![]);
    assert!(outcome.errors.is_empty());
    assert_eq!(service.state().path, "/test");
    // replace left nothing to go back to
    assert!(!service.state().can_go_back);
}

#[test]
fn push_after_go_back_discards_forward_history() {
    let mut service = new_service();
    service.submit(RoutingMessage::Push(NavigationTarget::InternalTarget(String::from("/test"))));
    service.run_until_empty(&vec![]);
    service.submit(RoutingMessage::GoBack);
    service.run_until_empty(&vec![]);
    assert!(service.state().can_go_forward);

    service.submit(RoutingMessage::Push(NavigationTarget::InternalTarget(String::from("/test"))));
    service.run_until_empty(&vec![]);
    assert!(!service.state().can_go_forward);
}

#[test]
fn initial_entry_may_carry_a_query() {
    let history = MemoryHistory::new(String::from("/test?a=1"));
    let mut service = RoutingService::new(history, test_routes(), String::new(), 8);
    service.run_until_empty(&vec![]);
    assert_eq!(service.state().path, "/test");
    assert_eq!(service.state().query, Some(String::from("a=1")));
}
