use router_core::path::{
    build_path, join_relative, last_segment, normalize_path, normalize_query, prepare_path,
    split_entry, split_path,
};

#[test]
fn split_path_ignores_extra_slashes() {
    assert_eq!(split_path("/a/b"), vec![String::from("a"), String::from("b")]);
    assert_eq!(split_path("a/b/"), vec![String::from("a"), String::from("b")]);
    assert_eq!(split_path("//a///b//"), vec![String::from("a"), String::from("b")]);
    assert_eq!(split_path("/"), Vec::<String>::new());
    assert_eq!(split_path(""), Vec::<String>::new());
}

#[test]
fn build_path_writes_a_slash_before_each_segment() {
    assert_eq!(build_path(&vec![String::from("a"), String::from("b")]), "/a/b");
    assert_eq!(build_path(&vec![]), "/");
}

#[test]
fn join_relative_inserts_one_slash() {
    assert_eq!(join_relative("/a", "b"), "/a/b");
    assert_eq!(join_relative("/a/", "b"), "/a/b");
    assert_eq!(join_relative("", "b"), "/b");
}

#[test]
fn split_entry_cuts_at_the_first_question_mark() {
    assert_eq!(split_entry("/a?x=1"), (String::from("/a"), Some(String::from("x=1"))));
    assert_eq!(split_entry("/a"), (String::from("/a"), None));
    assert_eq!(split_entry("/a?x=1?y"), (String::from("/a"), Some(String::from("x=1?y"))));
}

#[test]
fn last_segment_takes_what_follows_the_last_slash() {
    assert_eq!(last_segment("/a/b"), "b");
    assert_eq!(last_segment("abc"), "abc");
    assert_eq!(last_segment("/a/"), "");
}

#[test]
fn normalize_path_strips_prefix_and_leads_with_slash() {
    assert_eq!(normalize_path("/app/x", Some(&String::from("/app"))), "/x");
    assert_eq!(normalize_path("/other", Some(&String::from("/app"))), "/other");
    assert_eq!(normalize_path("x", None), "/x");
    assert_eq!(normalize_path("/x", None), "/x");
}

#[test]
fn normalize_query_drops_question_mark_and_empties() {
    assert_eq!(normalize_query("?a=1"), Some(String::from("a=1")));
    assert_eq!(normalize_query("a=1"), Some(String::from("a=1")));
    assert_eq!(normalize_query("?"), None);
    assert_eq!(normalize_query(""), None);
}

#[test]
fn prepare_path_rejects_double_slash_and_prefixes_relative_paths() {
    assert_eq!(prepare_path(String::from("//evil"), None), None);
    assert_eq!(
        prepare_path(String::from("x"), Some(&String::from("/app/"))),
        Some(String::from("/app/x"))
    );
    assert_eq!(
        prepare_path(String::from("/x"), Some(&String::from("/app/"))),
        Some(String::from("/x"))
    );
    assert_eq!(prepare_path(String::from("/x"), None), Some(String::from("/x")));
}
