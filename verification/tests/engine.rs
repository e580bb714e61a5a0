use openstack::cursor::{CursorStep, PaginationCursor};
use openstack::error::Error;
use openstack::finders::{ContainerQuery, ObjectQuery};
use openstack::loader::{load_from, looks_like_canonical_id, resolve_lookup, resolve_unique};
use openstack::pages::Listing;
use openstack::query::Query;
use openstack::storage::{Container, Object};

fn container(name: &str, bytes: u64) -> Container {
    Container { bytes, count: 0, last_modified: 0, name: name.to_owned() }
}

fn object(name: &str, bytes: u64) -> Object {
    Object {
        bytes,
        content_type: "application/octet-stream".to_owned(),
        last_modified: 0,
        name: name.to_owned(),
    }
}

#[test]
fn set_same_key_twice_yields_one_parameter() {
    let mut q = Query::new();
    q.set("format".to_owned(), "json".to_owned());
    q.set("format".to_owned(), "json".to_owned());
    assert_eq!(q.len(), 1);
    let (k, v) = q.param_at(0);
    assert_eq!(k, "format");
    assert_eq!(v, "json");
}

#[test]
fn set_overwrites_in_place_and_preserves_order() {
    let mut q = Query::new();
    q.set("marker".to_owned(), "a".to_owned());
    q.set("prefix".to_owned(), "doc-".to_owned());
    q.set("marker".to_owned(), "b".to_owned());
    assert_eq!(q.len(), 2);
    let (k0, v0) = q.param_at(0);
    assert_eq!((k0.as_str(), v0.as_str()), ("marker", "b"));
    let (k1, v1) = q.param_at(1);
    assert_eq!((k1.as_str(), v1.as_str()), ("prefix", "doc-"));
}

#[test]
fn remove_deletes_the_parameter() {
    let mut q = Query::new();
    q.set("format".to_owned(), "json".to_owned());
    q.set("prefix".to_owned(), "x".to_owned());
    q.remove(&"format".to_owned());
    assert_eq!(q.len(), 1);
    let (k, _) = q.param_at(0);
    assert_eq!(k, "prefix");
}

#[test]
fn pagination_walks_markers_across_two_requests() {
    // three containers, page size two: the marker after page one is "b",
    // and everything arrives in server order over two requests
    let listing = Listing::new(vec![container("a", 10), container("b", 20), container("m", 5)]);
    let mut cursor = PaginationCursor::new(None, 2);
    let mut out: Vec<Container> = Vec::new();
    let mut requests = 0usize;
    loop {
        match cursor.next_step() {
            CursorStep::Finished => break,
            CursorStep::Request { marker, page_size } => {
                let page = listing.list_page(&marker, page_size);
                requests += 1;
                cursor.feed_page(page, &mut out);
                if requests == 1 {
                    assert_eq!(cursor.current_marker().map(|s| s.as_str()), Some("b"));
                    assert_eq!(cursor.items_taken(), 2);
                }
            }
        }
    }
    assert_eq!(requests, 2);
    let names: Vec<&str> = out.iter().map(|c| c.name.as_str()).collect();
    assert_eq!(names, vec!["a", "b", "m"]);
}

#[test]
fn limit_zero_returns_empty_without_any_request() {
    let listing = Listing::new(vec![container("a", 1), container("b", 2)]);
    let mut q = ContainerQuery::new();
    q.with_limit(0);
    let (items, requests) = q.all_from(&listing, 2);
    assert!(items.is_empty());
    assert_eq!(requests, 0);
}

#[test]
fn limit_caps_the_total_result() {
    let listing =
        Listing::new(vec![container("a", 1), container("b", 2), container("c", 3), container("d", 4)]);
    let mut q = ContainerQuery::new();
    q.with_limit(3);
    let (items, _) = q.all_from(&listing, 2);
    assert_eq!(items.len(), 3);
    let names: Vec<&str> = items.iter().map(|c| c.name.as_str()).collect();
    assert_eq!(names, vec!["a", "b", "c"]);
}

#[test]
fn request_count_stays_within_one_of_the_page_count() {
    // five items, page size two: three pages, at most four requests
    let listing = Listing::new(vec![
        container("a", 1),
        container("b", 2),
        container("c", 3),
        container("d", 4),
        container("e", 5),
    ]);
    let q = ContainerQuery::new();
    let (items, requests) = q.all_from(&listing, 2);
    assert_eq!(items.len(), 5);
    assert!(requests <= 4);

    // four items, page size two: the extra empty-page round trip is allowed
    let listing = Listing::new(vec![
        container("a", 1),
        container("b", 2),
        container("c", 3),
        container("d", 4),
    ]);
    let q = ContainerQuery::new();
    let (items, requests) = q.all_from(&listing, 2);
    assert_eq!(items.len(), 4);
    assert!(requests <= 3);
}

#[test]
fn fetch_is_a_prefix_of_all() {
    let listing = Listing::new(vec![
        container("a", 1),
        container("b", 2),
        container("c", 3),
        container("d", 4),
        container("e", 5),
    ]);
    let fetched = ContainerQuery::new().fetch_from(&listing, 2);
    let (all, _) = ContainerQuery::new().all_from(&listing, 2);
    assert_eq!(fetched.len(), 2);
    assert!(fetched.len() <= all.len());
    for (f, a) in fetched.iter().zip(all.iter()) {
        assert_eq!(f.name, a.name);
        assert_eq!(f.bytes, a.bytes);
    }
}

#[test]
fn fetch_honours_a_smaller_cap() {
    let listing = Listing::new(vec![container("a", 1), container("b", 2), container("c", 3)]);
    let mut q = ContainerQuery::new();
    q.with_limit(1);
    let fetched = q.fetch_from(&listing, 2);
    assert_eq!(fetched.len(), 1);
    assert_eq!(fetched[0].name, "a");
}

#[test]
fn load_finds_a_uniquely_named_resource() {
    let listing = Listing::new(vec![container("X", 7), container("Y", 9)]);
    let r = load_from(&listing, &"X".to_owned());
    match r {
        Ok(c) => {
            assert_eq!(c.name, "X");
            assert_eq!(c.bytes, 7);
        }
        Err(_) => panic!("expected a unique match"),
    }
}

#[test]
fn load_fails_ambiguous_when_two_share_the_name() {
    let listing = Listing::new(vec![container("X", 7), container("Y", 9), container("X", 11)]);
    let r = load_from(&listing, &"X".to_owned());
    match r {
        Err(Error::Ambiguous(ids)) => {
            assert_eq!(ids.len(), 2);
            assert_eq!(ids[0], "X");
            assert_eq!(ids[1], "X");
        }
        _ => panic!("expected an ambiguous failure"),
    }
}

#[test]
fn load_fails_not_found_when_nothing_matches() {
    let listing = Listing::new(vec![container("Y", 9)]);
    let r = load_from(&listing, &"X".to_owned());
    assert!(matches!(r, Err(Error::NotFound)));
}

#[test]
fn a_direct_hit_short_circuits_resolution() {
    let r = resolve_lookup(Some(container("X", 1)), vec![container("X", 2), container("X", 3)]);
    match r {
        Ok(c) => assert_eq!(c.bytes, 1),
        Err(_) => panic!("expected the direct hit"),
    }
}

#[test]
fn resolve_unique_rejects_empty_and_plural_sets() {
    assert!(matches!(resolve_unique::<Container>(vec![]), Err(Error::NotFound)));
    let r = resolve_unique(vec![object("o1", 1), object("o2", 2)]);
    match r {
        Err(Error::Ambiguous(ids)) => assert_eq!(ids, vec!["o1".to_owned(), "o2".to_owned()]),
        _ => panic!("expected an ambiguous failure"),
    }
}

#[test]
fn auth_failure_is_retried_exactly_once_at_the_same_marker() {
    let mut cursor = PaginationCursor::new(None, 2);
    let first = cursor.note_auth_failure();
    let second = cursor.note_auth_failure();
    assert!(first);
    assert!(!second);
    assert_eq!(cursor.items_taken(), 0);
    assert!(!cursor.finished());
}

#[test]
fn error_labels_name_the_taxonomy() {
    assert_eq!(Error::NotFound.label(), "not found");
    assert_eq!(Error::Ambiguous(vec![]).label(), "ambiguous");
    assert_eq!(Error::Transport.label(), "transport");
    assert_eq!(Error::Deserialization.label(), "deserialization");
    assert_eq!(Error::AuthExpired.label(), "auth expired");
    assert_eq!(Error::Timeout.label(), "timeout");
}

#[test]
fn objects_paginate_like_containers() {
    let listing = Listing::new(vec![object("a/1", 1), object("a/2", 2), object("b/1", 3)]);
    let mut q = ObjectQuery::new("media".to_owned());
    q.with_limit(2);
    assert_eq!(q.container_name(), "media");
    let (items, requests) = q.all_from(&listing, 2);
    assert_eq!(items.len(), 2);
    assert!(requests <= 1);
    assert_eq!(items[0].name, "a/1");
    assert_eq!(items[1].name, "a/2");
}

#[test]
fn canonical_id_shape_is_recognised() {
    assert!(looks_like_canonical_id("031e08c7-2ca7-4c0b-9923-030c8d946ba4"));
    assert!(looks_like_canonical_id("8A1C355B-2E1E-440A-8AA8-F272DF72BC32"));
    assert!(!looks_like_canonical_id("m1.medium"));
    assert!(!looks_like_canonical_id("031e08c7-2ca7-4c0b-9923-030c8d946ba"));
    assert!(!looks_like_canonical_id("031e08c7x2ca7-4c0b-9923-030c8d946ba4"));
    assert!(!looks_like_canonical_id("031e08c7-2ca7-4c0b-9923-030c8d946bg4"));
    assert!(!looks_like_canonical_id(""));
}

#[test]
fn a_deadline_stop_keeps_partial_results() {
    let listing = Listing::new(vec![container("a", 1), container("b", 2), container("c", 3)]);
    let mut cursor = PaginationCursor::new(None, 1);
    let mut out: Vec<Container> = Vec::new();
    // one page fits before the deadline; then the caller stops the cursor
    if let CursorStep::Request { marker, page_size } = cursor.next_step() {
        let page = listing.list_page(&marker, page_size);
        cursor.feed_page(page, &mut out);
    } else {
        panic!("expected a first request");
    }
    cursor.stop();
    assert!(cursor.finished());
    assert_eq!(out.len(), 1);
    assert_eq!(out[0].name, "a");
    let partial: Result<Vec<Container>, (Error, Vec<Container>)> = Err((Error::Timeout, out));
    assert!(matches!(partial, Err((Error::Timeout, ref items)) if items.len() == 1));
}
