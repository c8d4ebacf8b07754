use router_core::history::memory::MemoryHistory;
use router_core::history::RoutingHistory;

#[test]
fn new_history_rests_on_initial() {
    let history: MemoryHistory<String> = MemoryHistory::new(String::from("/"));
    assert_eq!(history.current(), "/");
    assert!(!history.can_go_back());
    assert!(!history.can_go_forward());
}

#[test]
fn push_then_go_back_restores_current() {
    let mut history: MemoryHistory<String> = MemoryHistory::new(String::from("/"));
    history.push(String::from("/a"));
    assert_eq!(history.current(), "/a");
    history.go_back();
    assert_eq!(history.current(), "/");
}

#[test]
fn go_back_then_go_forward_restores_current() {
    let mut history: MemoryHistory<String> = MemoryHistory::new(String::from("/"));
    history.push(String::from("/a"));
    history.go_back();
    history.go_forward();
    assert_eq!(history.current(), "/a");
}

#[test]
fn push_clears_future() {
    let mut history: MemoryHistory<String> = MemoryHistory::new(String::from("/"));
    history.push(String::from("/a"));
    history.push(String::from("/b"));
    history.go_back();
    history.go_back();
    assert!(history.can_go_forward());
    history.push(String::from("/c"));
    assert!(!history.can_go_forward());
    assert_eq!(history.current(), "/c");
}

#[test]
fn replace_keeps_motion_flags() {
    let mut history: MemoryHistory<String> = MemoryHistory::new(String::from("/"));
    history.push(String::from("/a"));
    history.push(String::from("/b"));
    history.go_back();
    let back_before = history.can_go_back();
    let forward_before = history.can_go_forward();
    history.replace(String::from("/elsewhere"));
    assert_eq!(history.can_go_back(), back_before);
    assert_eq!(history.can_go_forward(), forward_before);
    assert_eq!(history.current(), "/elsewhere");
    history.go_forward();
    assert_eq!(history.current(), "/b");
    history.go_back();
    history.go_back();
    assert_eq!(history.current(), "/");
}

#[test]
fn go_back_on_empty_past_is_a_no_op() {
    let mut history: MemoryHistory<String> = MemoryHistory::new(String::from("/"));
    history.go_back();
    assert_eq!(history.current(), "/");
    assert!(!history.can_go_back());
    assert!(!history.can_go_forward());
}

#[test]
fn memory_history_has_no_external_capability() {
    let history: MemoryHistory<String> = MemoryHistory::new(String::from("/"));
    assert!(!history.can_external());
}

#[test]
fn default_history_rests_on_the_default_entry() {
    let history: MemoryHistory<String> = MemoryHistory::default();
    assert_eq!(history.current(), "");
    assert!(!history.can_go_back());
    assert!(!history.can_go_forward());
}
