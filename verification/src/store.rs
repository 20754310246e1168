//! Persisting one record into the shared SQLite store. The connection's
//! table contents are named as maps; every statement runs behind a
//! trusted wrapper, and the merge itself — one transaction, rows
//! inserted only where absent, users before the posts that reference
//! them, content trimmed at write time — is verified against the model
//! in `merge`.

use vstd::prelude::*;
use crate::merge::{ThreadRowV, PostRowV, fold_insert, merge_threads, merge_users, merge_posts,
    thread_entries, user_entries, post_entries};
use crate::record::ForumThreadData;
use crate::text::trim_str;

verus! {

#[verifier::external_type_specification]
#[verifier::external_body]
pub struct ExConnection(rusqlite::Connection);

#[verifier::external_type_specification]
#[verifier::external_body]
pub struct ExSqliteError(rusqlite::Error);

/// The `threads` rows this connection currently sees, its own open
/// transaction's writes included, keyed by thread id.
///
/// These six table views are functions of the one connection's state:
/// commits landing on other connections between calls are outside this
/// model, so contracts over them describe what one worker's
/// transaction reads and writes. That concurrent workers may merge in
/// any order rests on the idempotence and commutativity lemmas in
/// `merge`, not on these views.
pub uninterp spec fn db_threads(c: rusqlite::Connection) -> Map<int, ThreadRowV>;

/// The `users` rows this connection currently sees, keyed by user id.
pub uninterp spec fn db_users(c: rusqlite::Connection) -> Map<int, Seq<char>>;

/// The `posts` rows this connection currently sees, keyed by post id.
pub uninterp spec fn db_posts(c: rusqlite::Connection) -> Map<int, PostRowV>;

/// The durable (committed) `threads` rows behind the connection.
pub uninterp spec fn committed_threads(c: rusqlite::Connection) -> Map<int, ThreadRowV>;

/// The durable (committed) `users` rows behind the connection.
pub uninterp spec fn committed_users(c: rusqlite::Connection) -> Map<int, Seq<char>>;

/// The durable (committed) `posts` rows behind the connection.
pub uninterp spec fn committed_posts(c: rusqlite::Connection) -> Map<int, PostRowV>;

/// Whether the connection is in autocommit mode, i.e. has no open
/// transaction.
pub uninterp spec fn autocommit(c: rusqlite::Connection) -> bool;

/// No durable rows changed between two connection states.
pub open spec fn durable_unchanged(a: rusqlite::Connection, b: rusqlite::Connection) -> bool {
    &&& committed_threads(b) == committed_threads(a)
    &&& committed_users(b) == committed_users(a)
    &&& committed_posts(b) == committed_posts(a)
}

/// The connection's own view of the rows did not change either.
pub open spec fn pending_unchanged(a: rusqlite::Connection, b: rusqlite::Connection) -> bool {
    &&& db_threads(b) == db_threads(a)
    &&& db_users(b) == db_users(a)
    &&& db_posts(b) == db_posts(a)
}

/// Relies on Connection::execute_batch running `BEGIN`: opens a
/// transaction. On failure no transaction was opened; either way no
/// row, pending or durable, changes.
#[verifier::external_body]
fn tx_begin(c: &mut rusqlite::Connection) -> (r: Result<(), rusqlite::Error>)
    requires
        autocommit(*old(c)),
    ensures
        r matches Ok(()) ==> !autocommit(*final(c)),
        r matches Err(_) ==> autocommit(*final(c)),
        pending_unchanged(*old(c), *final(c)),
        durable_unchanged(*old(c), *final(c)),
{
    c.execute_batch("BEGIN")
}

/// Relies on Connection::execute_batch running `COMMIT`: makes the
/// open transaction's writes durable, exactly as this connection sees
/// them. On failure nothing became durable.
#[verifier::external_body]
fn tx_commit(c: &mut rusqlite::Connection) -> (r: Result<(), rusqlite::Error>)
    requires
        !autocommit(*old(c)),
    ensures
        r matches Ok(()) ==> {
            &&& autocommit(*final(c))
            &&& pending_unchanged(*old(c), *final(c))
            &&& committed_threads(*final(c)) == db_threads(*old(c))
            &&& committed_users(*final(c)) == db_users(*old(c))
            &&& committed_posts(*final(c)) == db_posts(*old(c))
        },
        r matches Err(_) ==> durable_unchanged(*old(c), *final(c)),
{
    c.execute_batch("COMMIT")
}

/// Relies on Connection::execute_batch running `ROLLBACK`: discards
/// the open transaction's writes. Durable rows are never affected.
#[verifier::external_body]
fn tx_rollback(c: &mut rusqlite::Connection) -> (r: Result<(), rusqlite::Error>)
    ensures
        r matches Ok(()) ==> {
            &&& autocommit(*final(c))
            &&& db_threads(*final(c)) == committed_threads(*old(c))
            &&& db_users(*final(c)) == committed_users(*old(c))
            &&& db_posts(*final(c)) == committed_posts(*old(c))
        },
        durable_unchanged(*old(c), *final(c)),
{
    c.execute_batch("ROLLBACK")
}

/// Relies on Connection::execute with `INSERT OR IGNORE INTO threads`:
/// writes the row only where the id is absent. A failed statement
/// inside a transaction leaves durable rows alone.
#[verifier::external_body]
fn insert_thread_row(c: &mut rusqlite::Connection, id: i64, title: &str, slug: &str) -> (r: Result<
    (),
    rusqlite::Error,
>)
    requires
        !autocommit(*old(c)),
    ensures
        r matches Ok(()) ==> {
            &&& !autocommit(*final(c))
            &&& db_threads(*final(c)) == (if db_threads(*old(c)).contains_key(id as int) {
                db_threads(*old(c))
            } else {
                db_threads(*old(c)).insert(id as int, ThreadRowV { title: title@, slug: slug@ })
            })
            &&& db_users(*final(c)) == db_users(*old(c))
            &&& db_posts(*final(c)) == db_posts(*old(c))
        },
        durable_unchanged(*old(c), *final(c)),
{
    c.execute("INSERT OR IGNORE INTO threads (id, title, slug) VALUES (?1, ?2, ?3)", (id, title, slug)).map(
        |_| (),
    )
}

/// Relies on Connection::execute with `INSERT OR IGNORE INTO users`:
/// writes the row only where the id is absent.
#[verifier::external_body]
fn insert_user_row(c: &mut rusqlite::Connection, id: i32, name: &str) -> (r: Result<
    (),
    rusqlite::Error,
>)
    requires
        !autocommit(*old(c)),
    ensures
        r matches Ok(()) ==> {
            &&& !autocommit(*final(c))
            &&& db_users(*final(c)) == (if db_users(*old(c)).contains_key(id as int) {
                db_users(*old(c))
            } else {
                db_users(*old(c)).insert(id as int, name@)
            })
            &&& db_threads(*final(c)) == db_threads(*old(c))
            &&& db_posts(*final(c)) == db_posts(*old(c))
        },
        durable_unchanged(*old(c), *final(c)),
{
    c.execute("INSERT OR IGNORE INTO users (id, name) VALUES (?1, ?2)", (id, name)).map(|_| ())
}

/// Relies on Connection::execute with `INSERT OR IGNORE INTO posts`:
/// writes the row only where the id is absent.
#[verifier::external_body]
fn insert_post_row(
    c: &mut rusqlite::Connection,
    id: i32,
    user_id: i32,
    thread_id: i64,
    thread_order: i32,
    datetime: &str,
    content: &str,
) -> (r: Result<(), rusqlite::Error>)
    requires
        !autocommit(*old(c)),
    ensures
        r matches Ok(()) ==> {
            &&& !autocommit(*final(c))
            &&& db_posts(*final(c)) == (if db_posts(*old(c)).contains_key(id as int) {
                db_posts(*old(c))
            } else {
                db_posts(*old(c)).insert(
                    id as int,
                    PostRowV {
                        user_id: user_id as int,
                        thread_id: thread_id as int,
                        thread_order: thread_order as int,
                        datetime: datetime@,
                        content: content@,
                    },
                )
            })
            &&& db_threads(*final(c)) == db_threads(*old(c))
            &&& db_users(*final(c)) == db_users(*old(c))
        },
        durable_unchanged(*old(c), *final(c)),
{
    c.execute(
        "INSERT OR IGNORE INTO posts (id, user_id, thread_id, thread_order, datetime, content) VALUES (?1, ?2, ?3, ?4, ?5, ?6)",
        (id, user_id, thread_id, thread_order, datetime, content),
    ).map(|_| ())
}

/// A record could not be persisted; carries the thread id for
/// diagnosis.
#[derive(Debug, Clone, Copy, PartialEq, Eq, Structural)]
pub struct PersistError {
    pub thread_id: u64,
}

fn contains_i32(v: &Vec<i32>, x: i32) -> (r: bool)
    ensures
        r == v@.contains(x),
{
    let mut i: usize = 0;
    while i < v.len()
        invariant
            i <= v@.len(),
            forall|j: int| 0 <= j < i ==> v@[j] != x,
        decreases v@.len() - i,
    {
        if v[i] == x {
            return true;
        }
        i += 1;
    }
    false
}

proof fn lemma_fold_insert_snoc<V>(m: Map<int, V>, es: Seq<(int, V)>, x: (int, V))
    ensures
        fold_insert(m, es.push(x)) == {
            let f = fold_insert(m, es);
            if f.contains_key(x.0) {
                f
            } else {
                f.insert(x.0, x.1)
            }
        },
    decreases es.len(),
{
    if es.len() == 0 {
        reveal_with_fuel(fold_insert, 2);
        assert(es.push(x)[0] == x);
        assert(es.push(x).drop_first() =~= Seq::<(int, V)>::empty());
    } else {
        assert(es.push(x)[0] == es[0]);
        assert(es.push(x).drop_first() =~= es.drop_first().push(x));
        let m1 = if m.contains_key(es[0].0) {
            m
        } else {
            m.insert(es[0].0, es[0].1)
        };
        lemma_fold_insert_snoc(m1, es.drop_first(), x);
    }
}

impl ForumThreadData {
    /// Applies this record to the store as one atomic, idempotent
    /// unit, inside a single transaction: the thread row, then for
    /// each post its user row (once per user id seen in this record)
    /// and the post row with its content trimmed, every insert a no-op
    /// where the primary key already exists. On success the
    /// connection's tables are exactly the merge of what they were,
    /// made durable; on any failure the transaction is abandoned and
    /// no durable row changes.
    pub fn save_to_db(&self, conn: &mut rusqlite::Connection) -> (r: Result<(), PersistError>)
        requires
            autocommit(*old(conn)),
        ensures
            r matches Ok(()) ==> {
                &&& autocommit(*final(conn))
                &&& db_threads(*final(conn)) == merge_threads(db_threads(*old(conn)), self@)
                &&& db_users(*final(conn)) == merge_users(db_users(*old(conn)), self@)
                &&& db_posts(*final(conn)) == merge_posts(db_posts(*old(conn)), self@)
                &&& committed_threads(*final(conn)) == db_threads(*final(conn))
                &&& committed_users(*final(conn)) == db_users(*final(conn))
                &&& committed_posts(*final(conn)) == db_posts(*final(conn))
            },
            r matches Err(e) ==> durable_unchanged(*old(conn), *final(conn)) && e.thread_id
                == self.thread_id,
            self.thread_id > i64::MAX as u64 ==> r is Err,
    {
        let ghost r0 = self@;
        let err = PersistError { thread_id: self.thread_id };
        if self.thread_id > i64::MAX as u64 {
            // The store holds 64-bit signed integers; an id beyond them
            // cannot be bound and the statement would fail anyway.
            return Err(err);
        }
        let tid = self.thread_id as i64;
        if tx_begin(conn).is_err() {
            return Err(err);
        }
        if insert_thread_row(
            conn,
            tid,
            self.thread_title.as_str(),
            self.thread_slug.as_str(),
        ).is_err() {
            let _ = tx_rollback(conn);
            return Err(err);
        }
        proof {
            reveal_with_fuel(fold_insert, 2);
            assert(thread_entries(r0).drop_first() =~= Seq::<(int, ThreadRowV)>::empty());
            assert(db_threads(*conn) == merge_threads(db_threads(*old(conn)), r0));
        }
        let mut seen: Vec<i32> = Vec::new();
        let mut i: usize = 0;
        proof {
            assert(user_entries(r0).take(0) =~= Seq::<(int, Seq<char>)>::empty());
            assert(post_entries(r0).take(0) =~= Seq::<(int, PostRowV)>::empty());
        }
        while i < self.posts.len()
            invariant
                r0 == self@,
                err.thread_id == self.thread_id,
                tid as int == r0.thread_id,
                i <= self.posts@.len(),
                !autocommit(*conn),
                durable_unchanged(*old(conn), *conn),
                db_threads(*conn) == merge_threads(db_threads(*old(conn)), r0),
                db_users(*conn) == fold_insert(
                    db_users(*old(conn)),
                    user_entries(r0).take(i as int),
                ),
                db_posts(*conn) == fold_insert(
                    db_posts(*old(conn)),
                    post_entries(r0).take(i as int),
                ),
                forall|j: int| 0 <= j < seen@.len() ==> db_users(*conn).contains_key(
                    #[trigger] seen@[j] as int,
                ),
            decreases self.posts@.len() - i,
        {
            let p = &self.posts[i];
            proof {
                assert(user_entries(r0).take(i + 1) =~= user_entries(r0).take(i as int).push(
                    user_entries(r0)[i as int],
                ));
                assert(post_entries(r0).take(i + 1) =~= post_entries(r0).take(i as int).push(
                    post_entries(r0)[i as int],
                ));
                lemma_fold_insert_snoc(
                    db_users(*old(conn)),
                    user_entries(r0).take(i as int),
                    user_entries(r0)[i as int],
                );
                lemma_fold_insert_snoc(
                    db_posts(*old(conn)),
                    post_entries(r0).take(i as int),
                    post_entries(r0)[i as int],
                );
            }
            if !contains_i32(&seen, p.user_id) {
                if insert_user_row(conn, p.user_id, p.username.as_str()).is_err() {
                    let _ = tx_rollback(conn);
                    return Err(err);
                }
                seen.push(p.user_id);
            }
            let trimmed = trim_str(p.message_body.as_str());
            if insert_post_row(
                conn,
                p.post_id,
                p.user_id,
                tid,
                p.thread_order,
                p.datetime.as_str(),
                trimmed.as_str(),
            ).is_err() {
                let _ = tx_rollback(conn);
                return Err(err);
            }
            i += 1;
        }
        proof {
            assert(user_entries(r0).take(self.posts@.len() as int) =~= user_entries(r0));
            assert(post_entries(r0).take(self.posts@.len() as int) =~= post_entries(r0));
        }
        if tx_commit(conn).is_err() {
            let _ = tx_rollback(conn);
            return Err(err);
        }
        Ok(())
    }
}

} // verus!
