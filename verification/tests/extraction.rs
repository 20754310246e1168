use extractor::page::{build_record, extract_thread_identity, RawLinkedAuthor, RawPage, RawPost};
use extractor::record::{ExtractError, Field};
use extractor::scrape::{process_file, Selectors};

fn linked_post(data_content: &str, uid: &str, name: &str) -> RawPost {
    RawPost {
        data_content: Some(data_content.to_string()),
        datetime: Some("2023-05-01T10:00:00+0000".to_string()),
        linked_author: Some(RawLinkedAuthor {
            user_id_text: Some(uid.to_string()),
            name_parts: vec![name.to_string()],
        }),
        avatar_title: None,
        body: Some("hello".to_string()),
    }
}

fn guest_post(data_content: &str, title: &str) -> RawPost {
    RawPost {
        data_content: Some(data_content.to_string()),
        datetime: Some("2023-05-01T11:00:00+0000".to_string()),
        linked_author: None,
        avatar_title: Some(Some(title.to_string())),
        body: Some("  spaced body  ".to_string()),
    }
}

fn page_with(posts: Vec<RawPost>, marker: Option<&str>) -> RawPage {
    RawPage {
        og_url: Some("https://forum.example/threads/how-to-cook.1234/page-3".to_string()),
        title: Some("  How to cook  ".to_string()),
        page_marker: marker.map(|m| m.to_string()),
        posts,
    }
}

#[test]
fn identity_from_canonical_url() {
    let r = extract_thread_identity("https://forum.example/threads/how-to-cook.1234/page-3");
    let (slug, id) = r.expect("identity");
    assert_eq!(slug, "how-to-cook");
    assert_eq!(id, 1234);
}

#[test]
fn identity_requires_two_segments_and_dot() {
    assert!(extract_thread_identity("nosuchurl").is_none());
    assert!(extract_thread_identity("https://forum.example/threads/howto/page-1").is_none());
    assert!(extract_thread_identity("https://forum.example/threads/how.to.cook/page-1").is_none());
}

#[test]
fn scenario_page_three_offsets() {
    let raw = page_with(
        vec![
            linked_post("post-9001", "55", "Alice"),
            guest_post("post-9002", "Guest"),
            guest_post("post-9003", "Guest"),
        ],
        Some("3"),
    );
    let rec = build_record(&raw).expect("record");
    assert_eq!(rec.thread_id, 1234);
    assert_eq!(rec.thread_slug, "how-to-cook");
    assert_eq!(rec.thread_title, "How to cook");
    assert_eq!(rec.posts.len(), 3);
    assert_eq!(rec.posts[0].post_id, 9001);
    assert_eq!(rec.posts[0].user_id, 55);
    assert_eq!(rec.posts[0].username, "Alice");
    assert_eq!(rec.posts[0].thread_order, 45);
    assert_eq!(rec.posts[1].post_id, 9002);
    assert_eq!(rec.posts[1].user_id, 0);
    assert_eq!(rec.posts[1].username, "Guest");
    assert_eq!(rec.posts[1].thread_order, 46);
    assert_eq!(rec.posts[2].post_id, 9003);
    assert_eq!(rec.posts[2].user_id, 0);
    assert_eq!(rec.posts[2].thread_order, 47);
}

#[test]
fn missing_marker_defaults_orders_to_index() {
    let raw = page_with(
        vec![
            linked_post("post-1", "7", "Bob"),
            linked_post("post-2", "7", "Bob"),
            linked_post("post-3", "8", "Eve"),
        ],
        None,
    );
    let rec = build_record(&raw).expect("record");
    let orders: Vec<i32> = rec.posts.iter().map(|p| p.thread_order).collect();
    assert_eq!(orders, vec![0, 1, 2]);
}

#[test]
fn malformed_marker_defaults_to_zero() {
    let raw = page_with(vec![linked_post("post-1", "7", "Bob")], Some("p3"));
    let rec = build_record(&raw).expect("record");
    assert_eq!(rec.posts[0].thread_order, 0);
}

#[test]
fn marker_two_gives_order_thirty() {
    let raw = page_with(vec![linked_post("post-1", "7", "Bob")], Some("2"));
    let rec = build_record(&raw).expect("record");
    assert_eq!(rec.posts[0].thread_order, 30);
}

#[test]
fn multiword_username_is_space_joined() {
    let mut p = linked_post("post-1", "7", "Bob");
    p.linked_author = Some(RawLinkedAuthor {
        user_id_text: Some("7".to_string()),
        name_parts: vec!["Bob".to_string(), "the".to_string(), "Builder".to_string()],
    });
    let raw = page_with(vec![p], None);
    let rec = build_record(&raw).expect("record");
    assert_eq!(rec.posts[0].username, "Bob the Builder");
}

#[test]
fn body_kept_verbatim_in_record() {
    let raw = page_with(vec![guest_post("post-1", "Guest")], None);
    let rec = build_record(&raw).expect("record");
    assert_eq!(rec.posts[0].message_body, "  spaced body  ");
}

#[test]
fn missing_canonical_url_fails() {
    let mut raw = page_with(vec![], None);
    raw.og_url = None;
    assert_eq!(
        build_record(&raw),
        Err(ExtractError::MissingRequiredField(Field::CanonicalUrl))
    );
}

#[test]
fn malformed_thread_id_fails() {
    let mut raw = page_with(vec![], None);
    raw.og_url = Some("https://forum.example/threads/how-to-cook.12x4/page-3".to_string());
    assert_eq!(build_record(&raw), Err(ExtractError::MalformedIdentifier));
}

#[test]
fn missing_title_fails() {
    let mut raw = page_with(vec![], None);
    raw.title = None;
    assert_eq!(build_record(&raw), Err(ExtractError::MissingRequiredField(Field::Title)));
}

#[test]
fn missing_data_content_fails() {
    let mut p = linked_post("post-1", "7", "Bob");
    p.data_content = None;
    let raw = page_with(vec![p], None);
    assert_eq!(build_record(&raw), Err(ExtractError::MissingRequiredField(Field::PostId)));
}

#[test]
fn undashed_or_nonnumeric_post_id_fails() {
    let raw = page_with(vec![linked_post("post", "7", "Bob")], None);
    assert_eq!(build_record(&raw), Err(ExtractError::MalformedIdentifier));
    let raw = page_with(vec![linked_post("post-abc", "7", "Bob")], None);
    assert_eq!(build_record(&raw), Err(ExtractError::MalformedIdentifier));
}

#[test]
fn missing_timestamp_fails() {
    let mut p = linked_post("post-1", "7", "Bob");
    p.datetime = None;
    let raw = page_with(vec![p], None);
    assert_eq!(build_record(&raw), Err(ExtractError::MissingRequiredField(Field::Timestamp)));
}

#[test]
fn missing_author_fails() {
    let mut p = linked_post("post-1", "7", "Bob");
    p.linked_author = None;
    p.avatar_title = None;
    let raw = page_with(vec![p], None);
    assert_eq!(build_record(&raw), Err(ExtractError::MissingRequiredField(Field::Author)));
    let mut p = linked_post("post-1", "7", "Bob");
    p.linked_author = None;
    p.avatar_title = Some(None);
    let raw = page_with(vec![p], None);
    assert_eq!(build_record(&raw), Err(ExtractError::MissingRequiredField(Field::Author)));
}

#[test]
fn nonnumeric_user_id_fails() {
    let raw = page_with(vec![linked_post("post-1", "x7", "Bob")], None);
    assert_eq!(build_record(&raw), Err(ExtractError::MalformedIdentifier));
}

#[test]
fn missing_body_fails() {
    let mut p = linked_post("post-1", "7", "Bob");
    p.body = None;
    let raw = page_with(vec![p], None);
    assert_eq!(build_record(&raw), Err(ExtractError::MissingRequiredField(Field::Body)));
}

#[test]
fn first_failing_post_decides_the_error() {
    let mut bad = linked_post("post-2", "7", "Bob");
    bad.datetime = None;
    let raw = page_with(vec![linked_post("post-1", "7", "Bob"), bad, linked_post("post", "7", "B")], None);
    assert_eq!(build_record(&raw), Err(ExtractError::MissingRequiredField(Field::Timestamp)));
}

#[test]
fn selectors_compile() {
    let _sels = Selectors::new();
}

fn scenario_html() -> String {
    let mut s = String::new();
    s.push_str("<html><head><meta property=\"og:url\" content=\"https://forum.example/threads/how-to-cook.1234/page-3\"></head><body>");
    s.push_str("<h1 class=\"p-title-value\"> How to cook </h1>");
    s.push_str("<span class=\"pageNav-page--current\">3</span>");
    s.push_str("<article class=\"message--post\" data-content=\"post-9001\">");
    s.push_str("<div class=\"message-header\"><time datetime=\"2023-05-01T10:00:00+0000\">May 1</time></div>");
    s.push_str("<a class=\"username\" data-user-id=\"55\">Alice</a>");
    s.push_str("<article class=\"message-body\">First!</article></article>");
    s.push_str("<article class=\"message--post\" data-content=\"post-9002\">");
    s.push_str("<div class=\"message-header\"><time datetime=\"2023-05-01T11:00:00+0000\">May 1</time></div>");
    s.push_str("<span class=\"avatar\" title=\"Guest\"></span>");
    s.push_str("<article class=\"message-body\"> Second </article></article>");
    s.push_str("<article class=\"message--post\" data-content=\"post-9003\">");
    s.push_str("<div class=\"message-header\"><time datetime=\"2023-05-01T12:00:00+0000\">May 1</time></div>");
    s.push_str("<span class=\"avatar\" title=\"Guest\"></span>");
    s.push_str("<article class=\"message-body\">Third</article></article>");
    s.push_str("</body></html>");
    s
}

#[test]
fn process_file_scenario() {
    let sels = Selectors::new();
    let rec = process_file(&scenario_html(), &sels).expect("record");
    assert_eq!(rec.thread_id, 1234);
    assert_eq!(rec.thread_slug, "how-to-cook");
    assert_eq!(rec.thread_title, "How to cook");
    assert_eq!(rec.posts.len(), 3);
    assert_eq!(rec.posts[0].user_id, 55);
    assert_eq!(rec.posts[0].username, "Alice");
    assert_eq!(rec.posts[0].datetime, "2023-05-01T10:00:00+0000");
    assert_eq!(rec.posts[0].message_body, "First!");
    assert_eq!(rec.posts[1].user_id, 0);
    assert_eq!(rec.posts[1].username, "Guest");
    assert_eq!(rec.posts[2].user_id, 0);
    let orders: Vec<i32> = rec.posts.iter().map(|p| p.thread_order).collect();
    assert_eq!(orders, vec![45, 46, 47]);
}

#[test]
fn process_file_without_og_url_fails() {
    let sels = Selectors::new();
    let html = "<html><head></head><body><h1 class=\"p-title-value\">T</h1></body></html>";
    assert_eq!(
        process_file(html, &sels),
        Err(ExtractError::MissingRequiredField(Field::CanonicalUrl))
    );
}
