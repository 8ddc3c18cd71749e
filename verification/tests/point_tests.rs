use rag_core::index::VectorIndex;
use rag_core::point::{build_point, point_key, snippet, u64_to_dec, VectorPoint};

#[test]
fn formats_decimals_exactly() {
    assert_eq!(u64_to_dec(0), "0");
    assert_eq!(u64_to_dec(7), "7");
    assert_eq!(u64_to_dec(10), "10");
    assert_eq!(u64_to_dec(12345), "12345");
    assert_eq!(u64_to_dec(u64::MAX), "18446744073709551615");
}

#[test]
fn single_chunk_key_is_the_file_name() {
    assert_eq!(point_key("a.txt", 0, 1), "a.txt");
    assert_eq!(point_key("a.txt", 0, 0), "a.txt");
}

#[test]
fn multi_chunk_keys_carry_the_index() {
    assert_eq!(point_key("a.txt", 0, 3), "a.txt#0");
    assert_eq!(point_key("a.txt", 2, 3), "a.txt#2");
    assert_eq!(point_key("a.txt", 12, 20), "a.txt#12");
}

#[test]
fn point_id_matches_name_based_uuid() {
    let p = build_point(42, "a.txt", 0, 1, "hello world");
    let expected = uuid::Uuid::new_v5(&uuid::Uuid::NAMESPACE_OID, "a.txt".as_bytes());
    assert_eq!(p.id, expected.to_string());
    assert_ne!(p.id, "a.txt");
}

#[test]
fn point_id_depends_on_the_key_alone() {
    let p1 = build_point(1, "a.txt", 0, 1, "first contents");
    let p2 = build_point(2, "a.txt", 0, 1, "second contents");
    assert_eq!(p1.id, p2.id);
    let other = build_point(1, "b.txt", 0, 1, "first contents");
    assert_ne!(p1.id, other.id);
}

#[test]
fn point_carries_its_attributes() {
    let p = build_point(42, "a.txt", 0, 1, "hello world");
    assert_eq!(p.task_id, 42);
    assert_eq!(p.file_name, "a.txt");
    assert_eq!(p.content_snippet, "hello world");
    assert_eq!(p.full_content, "hello world");
}

#[test]
fn short_content_is_its_own_snippet() {
    assert_eq!(snippet("hello"), "hello");
    assert_eq!(snippet(""), "");
    let exactly_200: String = "x".repeat(200);
    assert_eq!(snippet(&exactly_200), exactly_200);
}

#[test]
fn long_content_is_truncated_with_ellipsis() {
    let long: String = "y".repeat(201);
    let s = snippet(&long);
    assert_eq!(s.chars().count(), 203);
    assert!(s.ends_with("..."));
    assert!(s.starts_with("yyy"));
}

#[test]
fn upsert_same_id_replaces_the_point() {
    let mut index = VectorIndex::new();
    let p1 = build_point(1, "a.txt", 0, 1, "old contents");
    let p2 = build_point(2, "a.txt", 0, 1, "new contents");
    index.upsert(p1);
    assert_eq!(index.len(), 1);
    index.upsert(p2);
    assert_eq!(index.len(), 1);
    assert_eq!(index.points[0].full_content, "new contents");
    assert_eq!(index.points[0].task_id, 2);
}

#[test]
fn upsert_fresh_id_appends() {
    let mut index = VectorIndex::new();
    index.upsert(build_point(1, "a.txt", 0, 1, "a"));
    index.upsert(build_point(1, "b.txt", 0, 1, "b"));
    assert_eq!(index.len(), 2);
}

#[test]
fn find_returns_the_stored_point() {
    let mut index = VectorIndex::new();
    let p = build_point(9, "a.txt", 0, 1, "alpha");
    let id = p.id.clone();
    index.upsert(p);
    let found: &VectorPoint = index.find(&id).unwrap();
    assert_eq!(found.full_content, "alpha");
    assert!(index.find(&String::from("missing")).is_none());
}
