use openstack::error::Error;
use openstack::sort::{sort_containers, str_lex_le, ContainerSortKey, SortDirection};
use openstack::storage::{decode_container, decode_object, parse_http_date, Container};

fn container(name: &str, bytes: u64, count: u64) -> Container {
    Container { bytes, count, last_modified: 0, name: name.to_owned() }
}

#[test]
fn http_date_decodes_to_the_utc_timestamp() {
    // Wed, 21 Oct 2023 07:28:00 GMT is 2023-10-21T07:28:00Z
    let r = decode_container(10, 2, "Wed, 21 Oct 2023 07:28:00 GMT", "backups".to_owned());
    match r {
        Ok(c) => {
            assert_eq!(c.last_modified, 1697873280);
            assert_eq!(c.name, "backups");
            assert_eq!(c.bytes, 10);
            assert_eq!(c.count, 2);
        }
        Err(_) => panic!("expected the date to decode"),
    }
}

#[test]
fn malformed_dates_fail_deserialization_not_default() {
    let r = decode_container(10, 2, "not a date", "backups".to_owned());
    assert!(matches!(r, Err(Error::Deserialization)));
    let r = decode_object(1, "text/plain".to_owned(), "2023-10-21", "o".to_owned());
    assert!(matches!(r, Err(Error::Deserialization)));
}

#[test]
fn object_records_decode_whole() {
    let r = decode_object(42, "text/plain".to_owned(), "Wed, 18 Feb 2015 23:16:09 GMT", "notes".to_owned());
    match r {
        Ok(o) => {
            assert_eq!(o.bytes, 42);
            assert_eq!(o.content_type, "text/plain");
            assert_eq!(o.name, "notes");
            assert_eq!(o.last_modified, 1424301369);
        }
        Err(_) => panic!("expected the date to decode"),
    }
}

#[test]
fn parse_http_date_is_the_same_function_of_its_input() {
    let a = parse_http_date("Wed, 21 Oct 2023 07:28:00 GMT");
    let b = parse_http_date("Wed, 21 Oct 2023 07:28:00 GMT");
    assert_eq!(a, Some(1697873280));
    assert_eq!(a, b);
    assert_eq!(parse_http_date(""), None);
}

#[test]
fn string_order_is_lexicographic_by_code_point() {
    assert!(str_lex_le("a", "b"));
    assert!(!str_lex_le("b", "a"));
    assert!(str_lex_le("ab", "b"));
    assert!(str_lex_le("a", "ab"));
    assert!(!str_lex_le("ab", "a"));
    assert!(str_lex_le("", "a"));
    assert!(str_lex_le("same", "same"));
}

#[test]
fn ascending_sort_orders_consecutive_values() {
    let items = vec![container("m", 5, 0), container("a", 10, 0), container("b", 20, 0)];
    let keys = vec![(ContainerSortKey::Bytes, SortDirection::Ascending)];
    let sorted = sort_containers(&keys, items);
    let bytes: Vec<u64> = sorted.iter().map(|c| c.bytes).collect();
    assert_eq!(bytes, vec![5, 10, 20]);
    for w in sorted.windows(2) {
        assert!(w[0].bytes <= w[1].bytes);
    }
}

#[test]
fn descending_sort_by_name_reverses_the_order() {
    let items = vec![container("a", 10, 0), container("m", 5, 0), container("b", 20, 0)];
    let keys = vec![(ContainerSortKey::Name, SortDirection::Descending)];
    let sorted = sort_containers(&keys, items);
    let names: Vec<&str> = sorted.iter().map(|c| c.name.as_str()).collect();
    assert_eq!(names, vec!["m", "b", "a"]);
}

#[test]
fn later_keys_break_ties_of_earlier_keys() {
    let items = vec![
        container("z", 10, 0),
        container("a", 20, 0),
        container("b", 10, 0),
        container("c", 20, 0),
    ];
    let keys = vec![
        (ContainerSortKey::Bytes, SortDirection::Ascending),
        (ContainerSortKey::Name, SortDirection::Ascending),
    ];
    let sorted = sort_containers(&keys, items);
    let names: Vec<&str> = sorted.iter().map(|c| c.name.as_str()).collect();
    assert_eq!(names, vec!["b", "z", "a", "c"]);
}

#[test]
fn sorting_keeps_exactly_the_input_items() {
    let items = vec![container("a", 3, 1), container("a", 3, 1), container("b", 1, 2)];
    let keys = vec![(ContainerSortKey::Count, SortDirection::Descending)];
    let sorted = sort_containers(&keys, items);
    assert_eq!(sorted.len(), 3);
    assert_eq!(sorted[0].name, "b");
    assert_eq!(sorted.iter().filter(|c| c.name == "a").count(), 2);
}

#[test]
fn items_tied_under_every_key_keep_input_order() {
    let items = vec![
        container("first", 5, 1),
        container("second", 5, 2),
        container("small", 1, 3),
    ];
    let keys = vec![(ContainerSortKey::Bytes, SortDirection::Ascending)];
    let sorted = sort_containers(&keys, items);
    let names: Vec<&str> = sorted.iter().map(|c| c.name.as_str()).collect();
    assert_eq!(names, vec!["small", "first", "second"]);
}
