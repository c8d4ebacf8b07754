use router_core::navigation::NavigationTarget;
use router_core::state::RouterState;

fn test_state() -> RouterState {
    RouterState {
        can_external: false,
        can_go_back: false,
        can_go_forward: false,
        components: (vec![], Vec::new()),
        names: vec![String::from("test"), String::from("nest")],
        path: String::from("/test/nest"),
        prefix: String::from(""),
        query: None,
        parameters: vec![(String::from("test"), String::from("test"))],
    }
}

#[test]
fn is_active_external() {
    let state = test_state();

    assert!(!state.is_active(&NavigationTarget::ExternalTarget(String::from("test")), false));
    assert!(!state.is_active(&NavigationTarget::ExternalTarget(String::from("test")), true));
}

#[test]
fn is_active_path_absolute() {
    let state = test_state();

    assert!(state.is_active(&NavigationTarget::InternalTarget(String::from("/test")), false));
    assert!(state.is_active(&NavigationTarget::InternalTarget(String::from("/test/nest")), false));
    assert!(!state.is_active(&NavigationTarget::InternalTarget(String::from("/invalid")), false));
}

#[test]
fn is_active_path_exact() {
    let state = test_state();

    assert!(state.is_active(&NavigationTarget::InternalTarget(String::from("/test/nest")), true));
    assert!(!state.is_active(&NavigationTarget::InternalTarget(String::from("test/nest")), true));
}

#[test]
fn is_active_path_relative() {
    let state = test_state();

    assert!(!state.is_active(&NavigationTarget::InternalTarget(String::from("test")), false));
    assert!(state.is_active(&NavigationTarget::InternalTarget(String::from("nest")), false));
}

#[test]
fn is_active_name() {
    let state = test_state();

    assert!(state.is_active(&NavigationTarget::NamedTarget(String::from("test"), vec![], None), false));
    assert!(state.is_active(&NavigationTarget::NamedTarget(String::from("nest"), vec![], None), false));
    assert!(!state.is_active(
        &NavigationTarget::NamedTarget(String::from("invalid"), vec![], None),
        false
    ));
}

#[test]
fn is_active_name_exact() {
    let state = test_state();

    assert!(state.is_active(
        &NavigationTarget::NamedTarget(
            String::from("test"),
            vec![(String::from("test"), String::from("test"))],
            None
        ),
        true
    ));
    assert!(!state.is_active(
        &NavigationTarget::NamedTarget(
            String::from("invalid"),
            vec![(String::from("test"), String::from("test"))],
            None
        ),
        true
    ));
    assert!(!state.is_active(
        &NavigationTarget::NamedTarget(
            String::from("test"),
            vec![(String::from("invalid"), String::from("test"))],
            None
        ),
        true
    ));
    assert!(!state.is_active(
        &NavigationTarget::NamedTarget(
            String::from("test"),
            vec![(String::from("test"), String::from("invalid"))],
            None
        ),
        true
    ));
}

#[test]
fn query_params_key_without_value() {
    let mut state = test_state();
    state.query = Some(String::from("bold"));

    let params = state.query_params().expect("query should parse");
    assert_eq!(params, vec![(String::from("bold"), String::from(""))]);
}

#[test]
fn query_params_key_with_value() {
    let mut state = test_state();
    state.query = Some(String::from("bold=false"));

    let params = state.query_params().expect("query should parse");
    assert_eq!(params, vec![(String::from("bold"), String::from("false"))]);
}

#[test]
fn query_params_without_query() {
    let state = test_state();
    assert!(state.query_params().is_none());
}

#[test]
fn query_params_decodes_pairs() {
    let mut state = test_state();
    state.query = Some(String::from("a=1&b=two%20words"));

    let params = state.query_params().expect("query should parse");
    assert_eq!(
        params,
        vec![
            (String::from("a"), String::from("1")),
            (String::from("b"), String::from("two words")),
        ]
    );
}
