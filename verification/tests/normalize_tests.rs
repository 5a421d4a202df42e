use instagram_feed::document::{DocField, DocValue};
use instagram_feed::normalize::{normalize_document, normalize_response, post_date};
use instagram_feed::snapshot::default_snapshot;

fn obj(fields: Vec<(&str, DocValue)>) -> DocValue {
    DocValue::Object(
        fields
            .into_iter()
            .map(|(name, value)| DocField { name: name.to_string(), value })
            .collect(),
    )
}

fn text(s: &str) -> DocValue {
    DocValue::Text(s.to_string())
}

fn user_doc(user_fields: Vec<(&str, DocValue)>) -> DocValue {
    obj(vec![("data", obj(vec![("user", obj(user_fields))]))])
}

fn edge(display: &str, is_video: bool, shortcode: &str, ts: i64) -> DocValue {
    obj(vec![(
        "node",
        obj(vec![
            ("display_url", text(display)),
            ("is_video", DocValue::Bool(is_video)),
            ("shortcode", text(shortcode)),
            ("taken_at_timestamp", DocValue::Int(ts)),
        ]),
    )])
}

fn media_doc(count: i64, edges: Vec<DocValue>) -> DocValue {
    user_doc(vec![(
        "edge_owner_to_timeline_media",
        obj(vec![("count", DocValue::Int(count)), ("edges", DocValue::List(edges))]),
    )])
}

#[test]
fn field_coercion_private_flag_only() {
    let doc = user_doc(vec![("is_private", DocValue::Bool(true))]);
    let snap = normalize_document("alice".to_string(), &doc);
    assert!(snap.is_private);
    assert_eq!(snap.username, "alice");
    assert_eq!(snap.full_name, "");
    assert_eq!(snap.biography, "");
    assert_eq!(snap.profile_pic_url, "");
    assert!(!snap.is_verified);
    assert_eq!(snap.followers_count, 0);
    assert_eq!(snap.following_count, 0);
    assert_eq!(snap.posts_count, 0);
    assert!(snap.posts.is_empty());
}

#[test]
fn full_profile_fields_are_read() {
    let doc = user_doc(vec![
        ("full_name", text("Alice Doe")),
        ("biography", text("hello")),
        ("profile_pic_url", text("https://pics/alice.jpg")),
        ("is_verified", DocValue::Bool(true)),
        ("edge_followed_by", obj(vec![("count", DocValue::Int(42))])),
        ("edge_follow", obj(vec![("count", DocValue::Int(7))])),
    ]);
    let snap = normalize_document("alice".to_string(), &doc);
    assert_eq!(snap.full_name, "Alice Doe");
    assert_eq!(snap.biography, "hello");
    assert_eq!(snap.profile_pic_url, "https://pics/alice.jpg");
    assert!(snap.is_verified);
    assert!(!snap.is_private);
    assert_eq!(snap.followers_count, 42);
    assert_eq!(snap.following_count, 7);
}

#[test]
fn mistyped_field_defaults() {
    let doc = user_doc(vec![
        ("full_name", DocValue::Int(3)),
        ("is_private", text("yes")),
        ("edge_followed_by", obj(vec![("count", text("many"))])),
    ]);
    let snap = normalize_document("alice".to_string(), &doc);
    assert_eq!(snap.full_name, "");
    assert!(!snap.is_private);
    assert_eq!(snap.followers_count, 0);
}

#[test]
fn timestamp_zero_gives_unknown_date() {
    assert_eq!(post_date(0), "Unknown date");
    let doc = media_doc(1, vec![edge("u", false, "s", 0)]);
    let snap = normalize_document("a".to_string(), &doc);
    assert_eq!(snap.posts[0].date, "Unknown date");
}

#[test]
fn negative_timestamp_gives_unknown_date() {
    assert_eq!(post_date(-5), "Unknown date");
}

#[test]
fn valid_timestamp_gives_formatted_date() {
    let d = post_date(1609459200);
    assert_ne!(d, "Unknown date");
    assert_eq!(d, "2021-01-01 00:00:00 UTC");
}

#[test]
fn post_cap_keeps_first_seven() {
    let edges: Vec<DocValue> = (0..10)
        .map(|i| edge(&format!("u{}", i), false, &format!("s{}", i), 0))
        .collect();
    let doc = media_doc(10, edges);
    let snap = normalize_document("a".to_string(), &doc);
    assert_eq!(snap.posts_count, 10);
    assert_eq!(snap.posts.len(), 7);
    for i in 0..7 {
        assert_eq!(snap.posts[i].image_url, format!("u{}", i));
    }
}

#[test]
fn video_post_reuses_image_as_preview() {
    let doc = media_doc(1, vec![edge("img", true, "sc", 0)]);
    let snap = normalize_document("a".to_string(), &doc);
    assert_eq!(snap.posts[0].video_preview_url.as_deref(), Some("img"));
}

#[test]
fn photo_post_has_no_preview() {
    let doc = media_doc(1, vec![edge("img", false, "sc", 0)]);
    let snap = normalize_document("a".to_string(), &doc);
    assert_eq!(snap.posts[0].video_preview_url, None);
}

#[test]
fn direct_link_built_from_shortcode() {
    let doc = media_doc(1, vec![edge("img", false, "abc", 0)]);
    let snap = normalize_document("a".to_string(), &doc);
    assert_eq!(snap.posts[0].direct_link, "https://www.instagram.com/p/abc/");
}

#[test]
fn edge_without_node_is_skipped() {
    let doc = media_doc(3, vec![edge("u0", false, "s0", 0), obj(vec![]), edge("u2", false, "s2", 0)]);
    let snap = normalize_document("a".to_string(), &doc);
    assert_eq!(snap.posts.len(), 2);
    assert_eq!(snap.posts[0].image_url, "u0");
    assert_eq!(snap.posts[1].image_url, "u2");
}

#[test]
fn duplicate_member_first_wins() {
    let doc = obj(vec![("a", DocValue::Int(1)), ("a", DocValue::Int(2))]);
    match doc.get("a") {
        Some(DocValue::Int(n)) => assert_eq!(*n, 1),
        other => panic!("unexpected member: {:?}", other.is_some()),
    }
}

#[test]
fn failed_status_normalizes_to_defaults() {
    let snap = normalize_response("bob".to_string(), false, "{\"data\":{\"user\":{}}}");
    assert_eq!(snap, default_snapshot("bob".to_string()));
}

#[test]
fn malformed_body_normalizes_to_defaults() {
    let snap = normalize_response("bob".to_string(), true, "{ this is not json");
    assert_eq!(snap, default_snapshot("bob".to_string()));
}

#[test]
fn json_body_is_parsed_and_read() {
    let body = "{\"data\":{\"user\":{\"full_name\":\"Carol\",\"is_private\":true,\
                \"edge_followed_by\":{\"count\":42},\
                \"edge_owner_to_timeline_media\":{\"count\":1,\"edges\":[\
                {\"node\":{\"display_url\":\"https://img/1\",\"is_video\":true,\
                \"shortcode\":\"zzz\",\"taken_at_timestamp\":1609459200}}]}}}}";
    let snap = normalize_response("carol".to_string(), true, body);
    assert_eq!(snap.full_name, "Carol");
    assert!(snap.is_private);
    assert_eq!(snap.followers_count, 42);
    assert_eq!(snap.posts_count, 1);
    assert_eq!(snap.posts.len(), 1);
    assert_eq!(snap.posts[0].image_url, "https://img/1");
    assert_eq!(snap.posts[0].video_preview_url.as_deref(), Some("https://img/1"));
    assert_eq!(snap.posts[0].direct_link, "https://www.instagram.com/p/zzz/");
    assert_eq!(snap.posts[0].date, "2021-01-01 00:00:00 UTC");
}
