use router_core::matcher::{resolve, resolve_name, resolve_target, Resolution, TargetResolution};
use router_core::navigation::NavigationTarget;
use router_core::route_definition::{DynamicRoute, Route, RouteContent, Segment};

fn fixed(key: &str, route: Route) -> (String, Route) {
    (String::from(key), route)
}

fn settle(routes: &Segment, path: &str) -> router_core::state::RouterState {
    match resolve(routes, path, None, String::new(), false, false, false) {
        Resolution::Settled(state) => state,
        Resolution::Redirect(_) => panic!("expected a settled state for {path}"),
    }
}

/// index 1; "test" -> 2, named "test", nested index 3, "nest" -> 4 named "nest".
fn nested_routes() -> Segment {
    Segment {
        index: RouteContent::RcComponent(1),
        fixed: vec![fixed(
            "test",
            Route {
                name: Some(String::from("test")),
                content: RouteContent::RcComponent(2),
                sub: Some(Segment {
                    index: RouteContent::RcComponent(3),
                    fixed: vec![fixed(
                        "nest",
                        Route {
                            name: Some(String::from("nest")),
                            content: RouteContent::RcComponent(4),
                            sub: None,
                        },
                    )],
                    dynamic: DynamicRoute::DrNone,
                }),
            },
        )],
        dynamic: DynamicRoute::DrNone,
    }
}

#[test]
fn resolves_index_content() {
    let state = settle(&nested_routes(), "/");
    assert_eq!(state.components.0, vec![1]);
    assert!(state.names.is_empty());
    assert_eq!(state.path, "/");
}

#[test]
fn resolves_fixed_route_and_nested_index() {
    let state = settle(&nested_routes(), "/test");
    assert_eq!(state.components.0, vec![2, 3]);
    assert_eq!(state.names, vec![String::from("test")]);
}

#[test]
fn resolves_nested_route() {
    let state = settle(&nested_routes(), "/test/nest");
    assert_eq!(state.components.0, vec![2, 4]);
    assert_eq!(state.names, vec![String::from("test"), String::from("nest")]);
}

#[test]
fn ignores_leading_trailing_and_repeated_slashes() {
    let state = settle(&nested_routes(), "test//nest/");
    assert_eq!(state.components.0, vec![2, 4]);
}

#[test]
fn fixed_beats_dynamic_variable() {
    let routes = Segment {
        index: RouteContent::RcNone,
        fixed: vec![fixed(
            "users",
            Route {
                name: Some(String::from("users_fixed")),
                content: RouteContent::RcComponent(1),
                sub: None,
            },
        )],
        dynamic: DynamicRoute::DrVariable {
            name: Some(String::from("users_variable")),
            key: String::from("id"),
            content: RouteContent::RcComponent(2),
            sub: None,
        },
    };

    let state = settle(&routes, "/users");
    assert_eq!(state.components.0, vec![1]);
    assert_eq!(state.names, vec![String::from("users_fixed")]);
    assert!(state.parameters.is_empty());

    let other = settle(&routes, "/someone");
    assert_eq!(other.components.0, vec![2]);
    assert_eq!(other.names, vec![String::from("users_variable")]);
    assert_eq!(
        other.parameters,
        vec![(String::from("id"), String::from("someone"))]
    );
}

#[test]
fn index_only_segment_matches_root_but_not_remainder() {
    let routes = Segment {
        index: RouteContent::RcComponent(10),
        fixed: vec![],
        dynamic: DynamicRoute::DrNone,
    };

    let matched = settle(&routes, "/");
    assert_eq!(matched.components.0, vec![10]);

    let unmatched = settle(&routes, "/anything");
    assert!(unmatched.components.0.is_empty());
    assert!(unmatched.names.is_empty());
}

#[test]
fn fallback_is_terminal_and_matches_any_remainder() {
    let routes = Segment {
        index: RouteContent::RcNone,
        fixed: vec![],
        dynamic: DynamicRoute::DrFallback(RouteContent::RcComponent(9)),
    };

    let state = settle(&routes, "/x/y/z");
    assert_eq!(state.components.0, vec![9]);
}

#[test]
fn named_navigation_substitutes_parameters() {
    let routes = Segment {
        index: RouteContent::RcNone,
        fixed: vec![fixed(
            "blog",
            Route {
                name: None,
                content: RouteContent::RcNone,
                sub: Some(Segment {
                    index: RouteContent::RcNone,
                    fixed: vec![],
                    dynamic: DynamicRoute::DrVariable {
                        name: Some(String::from("post")),
                        key: String::from("id"),
                        content: RouteContent::RcComponent(1),
                        sub: None,
                    },
                }),
            },
        )],
        dynamic: DynamicRoute::DrNone,
    };

    let path = resolve_name(
        &routes,
        &String::from("post"),
        &vec![(String::from("id"), String::from("42"))],
    );
    assert_eq!(path, Some(String::from("/blog/42")));

    let missing = resolve_name(&routes, &String::from("absent"), &vec![]);
    assert!(missing.is_none());

    let unbound = resolve_name(&routes, &String::from("post"), &vec![]);
    assert!(unbound.is_none());
}

#[test]
fn redirect_content_stops_matching() {
    let routes = Segment {
        index: RouteContent::RcNone,
        fixed: vec![fixed(
            "old",
            Route {
                name: None,
                content: RouteContent::RcRedirect(NavigationTarget::InternalTarget(String::from(
                    "/new",
                ))),
                sub: None,
            },
        )],
        dynamic: DynamicRoute::DrNone,
    };

    match resolve(&routes, "/old", None, String::new(), false, false, false) {
        Resolution::Redirect(NavigationTarget::InternalTarget(path)) => {
            assert_eq!(path, "/new");
        }
        _ => panic!("expected a redirect"),
    }
}

#[test]
fn resolve_target_absolute_relative_and_named() {
    let routes = Segment {
        index: RouteContent::RcNone,
        fixed: vec![fixed(
            "docs",
            Route {
                name: Some(String::from("docs")),
                content: RouteContent::RcNone,
                sub: None,
            },
        )],
        dynamic: DynamicRoute::DrNone,
    };

    let absolute = resolve_target(
        &NavigationTarget::InternalTarget(String::from("/a/b")),
        "/current",
        &routes,
    );
    assert!(matches!(absolute, TargetResolution::Path(p) if p == "/a/b"));

    let relative = resolve_target(
        &NavigationTarget::InternalTarget(String::from("deeper")),
        "/current",
        &routes,
    );
    assert!(matches!(relative, TargetResolution::Path(p) if p == "/current/deeper"));

    let named = resolve_target(
        &NavigationTarget::NamedTarget(String::from("docs"), vec![], Some(String::from("q=1"))),
        "/current",
        &routes,
    );
    assert!(matches!(named, TargetResolution::Path(p) if p == "/docs?q=1"));

    let unresolved = resolve_target(
        &NavigationTarget::NamedTarget(String::from("absent"), vec![], None),
        "/current",
        &routes,
    );
    assert!(matches!(unresolved, TargetResolution::Unresolved(n) if n == "absent"));

    let external = resolve_target(
        &NavigationTarget::ExternalTarget(String::from("https://example.com/")),
        "/current",
        &routes,
    );
    assert!(matches!(external, TargetResolution::External(u) if u == "https://example.com/"));
}

#[test]
fn query_is_carried_verbatim_into_the_snapshot() {
    let state = match resolve(
        &nested_routes(),
        "/test",
        Some(String::from("bold=false")),
        String::from("/prefix"),
        true,
        false,
        true,
    ) {
        Resolution::Settled(state) => state,
        Resolution::Redirect(_) => panic!("expected a settled state"),
    };
    assert_eq!(state.query, Some(String::from("bold=false")));
    assert_eq!(state.prefix, "/prefix");
    assert!(state.can_go_back);
    assert!(!state.can_go_forward);
    assert!(state.can_external);
}

#[test]
fn multi_content_fills_slots() {
    let routes = Segment {
        index: RouteContent::RcMulti(1, vec![(String::from("side"), 2)]),
        fixed: vec![],
        dynamic: DynamicRoute::DrNone,
    };

    let state = settle(&routes, "/");
    assert_eq!(state.components.0, vec![1]);
    assert_eq!(state.components.1.len(), 1);
    assert_eq!(state.components.1[0].0, "side");
    assert_eq!(state.components.1[0].1, vec![2]);
}

#[test]
fn resolve_is_deterministic() {
    let first = settle(&nested_routes(), "/test/nest");
    let second = settle(&nested_routes(), "/test/nest");
    assert_eq!(first.components.0, second.components.0);
    assert_eq!(first.components.1, second.components.1);
    assert_eq!(first.names, second.names);
    assert_eq!(first.parameters, second.parameters);
    assert_eq!(first.path, second.path);
    assert_eq!(first.prefix, second.prefix);
    assert_eq!(first.query, second.query);
    assert_eq!(first.can_go_back, second.can_go_back);
    assert_eq!(first.can_go_forward, second.can_go_forward);
    assert_eq!(first.can_external, second.can_external);
}
