use doc_controller::cache::{get_cr_entries, watch_for_cr_updates, Cache};
use doc_controller::foo::{FooSpec, FooStatus};
use doc_controller::text::{contains_text, find_char, join};
use doc_controller::watch::{
    list_all_crd_entries, watch_crd_entries_after, ApiError, Crd, CrdList, Metadata, Named,
    Resource, WatchEvent,
};

fn foos() -> Resource {
    Resource { resource: "foos".into(), group: "clux.dev".into(), namespace: "dev".into() }
}

fn foo(name: &str, info: &str, version: &str) -> Crd<FooSpec> {
    Crd {
        apiVersion: "clux.dev/v1".into(),
        kind: "Foo".into(),
        metadata: Metadata {
            name: name.into(),
            annotations: Vec::new(),
            resourceVersion: version.into(),
        },
        spec: FooSpec { name: name.into(), info: info.into() },
    }
}

fn list(items: Vec<Crd<FooSpec>>, version: &str) -> CrdList<Crd<FooSpec>> {
    CrdList {
        apiVersion: "clux.dev/v1".into(),
        kind: "FooList".into(),
        metadata: Metadata {
            name: String::new(),
            annotations: Vec::new(),
            resourceVersion: version.into(),
        },
        items,
    }
}

fn held(c: &Cache<FooSpec>, name: &str) -> Option<String> {
    c.data.iter().find(|e| e.0 == name).map(|e| e.1.info.clone())
}

#[test]
fn list_request_names_group_namespace_and_resource() {
    let req = list_all_crd_entries(&foos());
    assert_eq!(req.method, "GET");
    assert_eq!(req.uri, "/apis/clux.dev/v1/namespaces/dev/foos?");
    assert!(req.body.is_empty());
}

#[test]
fn watch_request_carries_timeout_watch_and_version() {
    let req = watch_crd_entries_after(&foos(), "1234");
    assert_eq!(req.method, "GET");
    assert_eq!(
        req.uri,
        "/apis/clux.dev/v1/namespaces/dev/foos?&timeoutSeconds=10&watch=true&resourceVersion=1234"
    );
    assert!(req.body.is_empty());
}

#[test]
fn watch_request_encodes_the_version() {
    let req = watch_crd_entries_after(&foos(), "a b&c=d/é");
    assert_eq!(
        req.uri,
        "/apis/clux.dev/v1/namespaces/dev/foos?&timeoutSeconds=10&watch=true&resourceVersion=a+b%26c%3Dd%2F%C3%A9"
    );
    let empty = watch_crd_entries_after(&foos(), "");
    assert_eq!(
        empty.uri,
        "/apis/clux.dev/v1/namespaces/dev/foos?&timeoutSeconds=10&watch=true&resourceVersion="
    );
}

#[test]
fn listed_resources_start_the_cache() {
    let c = get_cr_entries(list(
        vec![foo("a", "first", "1"), foo("b", "second", "2"), foo("a", "third", "3")],
        "42",
    ));
    assert_eq!(c.version, "42");
    assert_eq!(c.len(), 2);
    assert_eq!(held(&c, "a"), Some("third".to_string()));
    assert_eq!(held(&c, "b"), Some("second".to_string()));
    assert!(c.contains("a"));
    assert!(!c.contains("c"));
    let none: Cache<FooSpec> = get_cr_entries(list(Vec::new(), ""));
    assert_eq!(none.len(), 0);
    assert_eq!(none.version, "");
}

#[test]
fn added_resources_do_not_replace_known_ones() {
    let c = get_cr_entries(list(vec![foo("a", "known", "1")], "1"));
    let c = watch_for_cr_updates(
        vec![WatchEvent::Added(foo("a", "again", "5")), WatchEvent::Added(foo("b", "new", "6"))],
        c,
    );
    assert_eq!(held(&c, "a"), Some("known".to_string()));
    assert_eq!(held(&c, "b"), Some("new".to_string()));
    assert_eq!(c.version, "6");
}

#[test]
fn modified_resources_replace_known_ones_only() {
    let c = get_cr_entries(list(vec![foo("a", "known", "1")], "1"));
    let c = watch_for_cr_updates(
        vec![
            WatchEvent::Modified(foo("a", "changed", "7")),
            WatchEvent::Modified(foo("b", "unknown", "8")),
        ],
        c,
    );
    assert_eq!(held(&c, "a"), Some("changed".to_string()));
    assert_eq!(held(&c, "b"), None);
    assert_eq!(c.len(), 1);
    assert_eq!(c.version, "8");
}

#[test]
fn deleted_resources_leave_the_cache() {
    let c = get_cr_entries(list(
        vec![foo("a", "1", "1"), foo("b", "2", "1"), foo("c", "3", "1")],
        "1",
    ));
    let c = watch_for_cr_updates(
        vec![WatchEvent::Deleted(foo("b", "2", "9")), WatchEvent::Deleted(foo("x", "", ""))],
        c,
    );
    assert_eq!(held(&c, "a"), Some("1".to_string()));
    assert_eq!(held(&c, "b"), None);
    assert_eq!(held(&c, "c"), Some("3".to_string()));
    assert_eq!(c.len(), 2);
    // an event without version leaves the version as it was
    assert_eq!(c.version, "9");
}

#[test]
fn errors_and_no_events_change_nothing() {
    let c = get_cr_entries(list(vec![foo("a", "1", "1")], "3"));
    let c = watch_for_cr_updates(Vec::new(), c);
    assert_eq!(c.version, "3");
    let c = watch_for_cr_updates(
        vec![WatchEvent::Error(ApiError {
            status: "Failure".into(),
            message: Some("too old resource version".into()),
            reason: Some("Gone".into()),
            code: 410,
        })],
        c,
    );
    assert_eq!(c.version, "3");
    assert_eq!(held(&c, "a"), Some("1".to_string()));
    assert_eq!(c.len(), 1);
}

#[test]
fn events_are_taken_in_the_order_in_which_they_came() {
    let c: Cache<FooSpec> = get_cr_entries(list(Vec::new(), "0"));
    let c = watch_for_cr_updates(
        vec![
            WatchEvent::Added(foo("a", "one", "1")),
            WatchEvent::Modified(foo("a", "two", "2")),
            WatchEvent::Deleted(foo("a", "two", "3")),
            WatchEvent::Added(foo("a", "three", "4")),
        ],
        c,
    );
    assert_eq!(held(&c, "a"), Some("three".to_string()));
    assert_eq!(c.version, "4");
    assert_eq!(c.len(), 1);
}

#[test]
fn foo_is_bad_when_its_text_holds_the_bad_words() {
    let good = FooSpec { name: "a".into(), info: "all good words".into() };
    let bad = FooSpec { name: "b".into(), info: "some bad words here".into() };
    assert_eq!(good.observed_status(), FooStatus { is_bad: false, replicas: 1 });
    assert_eq!(bad.observed_status(), FooStatus { is_bad: true, replicas: 1 });
    assert_eq!(good.name(), "a");
}

#[test]
fn text_helpers_count_characters() {
    assert_eq!(find_char("héllo(", '('), Some(5));
    assert_eq!(find_char("hello", '('), None);
    assert_eq!(find_char("", '('), None);
    assert!(contains_text("bad words", "bad words"));
    assert!(contains_text("xbad wordsx", "bad words"));
    assert!(contains_text("anything", ""));
    assert!(contains_text("", ""));
    assert!(!contains_text("bad word", "bad words"));
    assert!(!contains_text("", "a"));
    assert!(contains_text("aab", "ab"));
    assert_eq!(join(&vec!["a".to_string(), "".to_string(), "b".to_string()], ", "), "a, , b");
    assert_eq!(join(&vec!["a".to_string()], ", "), "a");
}

#[test]
fn cache_with_a_name_twice_is_told_apart() {
    let mut c = get_cr_entries(list(vec![foo("a", "1", "1"), foo("b", "2", "1")], "1"));
    assert!(c.is_wf());
    c.data.push(("a".to_string(), FooSpec { name: "a".into(), info: "again".into() }));
    assert!(!c.is_wf());
    let empty: Cache<FooSpec> = get_cr_entries(list(Vec::new(), ""));
    assert!(empty.is_wf());
}
