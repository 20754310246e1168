use extractor::record::{ForumThreadData, PostData};
use rusqlite::Connection;

fn full_schema(conn: &Connection) {
    conn.execute(
        "CREATE TABLE IF NOT EXISTS threads (id INTEGER PRIMARY KEY, title TEXT, slug TEXT)",
        [],
    )
    .unwrap();
    conn.execute("CREATE TABLE IF NOT EXISTS users (id INTEGER PRIMARY KEY, name TEXT)", [])
        .unwrap();
    conn.execute(
        "CREATE TABLE IF NOT EXISTS posts (id INTEGER PRIMARY KEY, user_id INTEGER, thread_id INTEGER, thread_order INTEGER, datetime TEXT, content TEXT, FOREIGN KEY(user_id) REFERENCES users(id), FOREIGN KEY(thread_id) REFERENCES threads(id))",
        [],
    )
    .unwrap();
}

fn post(post_id: i32, user_id: i32, username: &str, thread_order: i32, body: &str) -> PostData {
    PostData {
        post_id,
        user_id,
        username: username.to_string(),
        thread_order,
        datetime: "2023-05-01T10:00:00+0000".to_string(),
        message_body: body.to_string(),
    }
}

fn record(thread_id: u64, posts: Vec<PostData>) -> ForumThreadData {
    ForumThreadData {
        thread_slug: "how-to-cook".to_string(),
        thread_id,
        thread_title: "How to cook".to_string(),
        posts,
    }
}

fn count(conn: &Connection, sql: &str) -> i64 {
    conn.query_row(sql, [], |r| r.get::<_, i64>(0)).unwrap()
}

fn order_of(conn: &Connection, post_id: i32) -> i64 {
    conn.query_row("SELECT thread_order FROM posts WHERE id = ?1", (post_id,), |r| {
        r.get::<_, i64>(0)
    })
    .unwrap()
}

#[test]
fn save_writes_all_rows() {
    let mut conn = Connection::open_in_memory().unwrap();
    full_schema(&conn);
    let rec = record(
        1234,
        vec![post(9001, 55, "Alice", 45, "First!"), post(9002, 0, "Guest", 46, " Second ")],
    );
    rec.save_to_db(&mut conn).unwrap();
    assert_eq!(count(&conn, "SELECT COUNT(*) FROM threads"), 1);
    assert_eq!(count(&conn, "SELECT COUNT(*) FROM users"), 2);
    assert_eq!(count(&conn, "SELECT COUNT(*) FROM posts"), 2);
    let (title, slug) = conn
        .query_row("SELECT title, slug FROM threads WHERE id = 1234", [], |r| {
            Ok((r.get::<_, String>(0)?, r.get::<_, String>(1)?))
        })
        .unwrap();
    assert_eq!(title, "How to cook");
    assert_eq!(slug, "how-to-cook");
    assert_eq!(order_of(&conn, 9001), 45);
    assert_eq!(order_of(&conn, 9002), 46);
}

#[test]
fn content_is_trimmed_at_write_time() {
    let mut conn = Connection::open_in_memory().unwrap();
    full_schema(&conn);
    let rec = record(1, vec![post(10, 5, "A", 0, "  padded body \n")]);
    rec.save_to_db(&mut conn).unwrap();
    let content: String = conn
        .query_row("SELECT content FROM posts WHERE id = 10", [], |r| r.get(0))
        .unwrap();
    assert_eq!(content, "padded body");
}

#[test]
fn merge_is_idempotent() {
    let mut conn = Connection::open_in_memory().unwrap();
    full_schema(&conn);
    let rec = record(
        1234,
        vec![post(9001, 55, "Alice", 45, "First!"), post(9002, 0, "Guest", 46, "Second")],
    );
    rec.save_to_db(&mut conn).unwrap();
    rec.save_to_db(&mut conn).unwrap();
    assert_eq!(count(&conn, "SELECT COUNT(*) FROM threads"), 1);
    assert_eq!(count(&conn, "SELECT COUNT(*) FROM users"), 2);
    assert_eq!(count(&conn, "SELECT COUNT(*) FROM posts"), 2);
    assert_eq!(order_of(&conn, 9001), 45);
}

#[test]
fn existing_rows_are_never_overwritten() {
    let mut conn = Connection::open_in_memory().unwrap();
    full_schema(&conn);
    record(1234, vec![post(9001, 55, "Alice", 45, "First!")]).save_to_db(&mut conn).unwrap();
    let mut other = record(1234, vec![post(9001, 55, "Alice", 45, "Changed body")]);
    other.thread_title = "Another title".to_string();
    other.save_to_db(&mut conn).unwrap();
    let title: String = conn
        .query_row("SELECT title FROM threads WHERE id = 1234", [], |r| r.get(0))
        .unwrap();
    assert_eq!(title, "How to cook");
    let content: String = conn
        .query_row("SELECT content FROM posts WHERE id = 9001", [], |r| r.get(0))
        .unwrap();
    assert_eq!(content, "First!");
}

#[test]
fn processing_order_does_not_change_post_orders() {
    let page0 = record(
        1234,
        vec![post(9001, 55, "Alice", 0, "a"), post(9002, 0, "Guest", 1, "b")],
    );
    let page3 = record(
        1234,
        vec![post(9101, 7, "Bob", 45, "c"), post(9102, 0, "Guest", 46, "d")],
    );
    let mut conn_a = Connection::open_in_memory().unwrap();
    full_schema(&conn_a);
    page0.save_to_db(&mut conn_a).unwrap();
    page3.save_to_db(&mut conn_a).unwrap();
    let mut conn_b = Connection::open_in_memory().unwrap();
    full_schema(&conn_b);
    page3.save_to_db(&mut conn_b).unwrap();
    page0.save_to_db(&mut conn_b).unwrap();
    for id in [9001, 9002, 9101, 9102] {
        assert_eq!(order_of(&conn_a, id), order_of(&conn_b, id));
    }
    assert_eq!(count(&conn_a, "SELECT COUNT(*) FROM posts"), 4);
    assert_eq!(count(&conn_b, "SELECT COUNT(*) FROM posts"), 4);
}

#[test]
fn anonymous_authors_collapse_to_single_row() {
    let mut conn = Connection::open_in_memory().unwrap();
    full_schema(&conn);
    let rec = record(
        1,
        vec![post(1, 0, "GuestA", 0, "x"), post(2, 0, "GuestB", 1, "y")],
    );
    rec.save_to_db(&mut conn).unwrap();
    assert_eq!(count(&conn, "SELECT COUNT(*) FROM users"), 1);
    let name: String = conn
        .query_row("SELECT name FROM users WHERE id = 0", [], |r| r.get(0))
        .unwrap();
    assert_eq!(name, "GuestA");
}

#[test]
fn failed_merge_leaves_no_partial_thread() {
    let mut conn = Connection::open_in_memory().unwrap();
    // Only two of the three tables exist: the post insert must fail and
    // the whole record's effects must be rolled back.
    conn.execute("CREATE TABLE threads (id INTEGER PRIMARY KEY, title TEXT, slug TEXT)", [])
        .unwrap();
    conn.execute("CREATE TABLE users (id INTEGER PRIMARY KEY, name TEXT)", []).unwrap();
    let rec = record(1234, vec![post(9001, 55, "Alice", 45, "First!")]);
    let err = rec.save_to_db(&mut conn).unwrap_err();
    assert_eq!(err.thread_id, 1234);
    assert_eq!(count(&conn, "SELECT COUNT(*) FROM threads"), 0);
    assert_eq!(count(&conn, "SELECT COUNT(*) FROM users"), 0);
}

#[test]
fn unavailable_store_reports_thread_id() {
    let mut conn = Connection::open_in_memory().unwrap();
    // No tables at all: even the thread row cannot be written.
    let rec = record(77, vec![]);
    let err = rec.save_to_db(&mut conn).unwrap_err();
    assert_eq!(err.thread_id, 77);
}
