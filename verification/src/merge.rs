//! The persistence model: what one thread extraction record does to the
//! store's three tables, as insert-if-absent folds over maps, with the
//! laws that make concurrent, repeated merging safe.

use vstd::prelude::*;
use vstd::map::*;
use crate::record::{PostV, RecordV};
use crate::text::spec_trim;

verus! {

/// A `threads` row: title and slug as first written.
#[verifier::ext_equal]
pub ghost struct ThreadRowV {
    pub title: Seq<char>,
    pub slug: Seq<char>,
}

/// A `posts` row as persisted: content trimmed of surrounding white
/// space at write time.
#[verifier::ext_equal]
pub ghost struct PostRowV {
    pub user_id: int,
    pub thread_id: int,
    pub thread_order: int,
    pub datetime: Seq<char>,
    pub content: Seq<char>,
}

/// Applies keyed entries to a map in order, inserting each only where
/// its key is absent: rows are never overwritten.
pub open spec fn fold_insert<V>(m: Map<int, V>, es: Seq<(int, V)>) -> Map<int, V>
    decreases es.len(),
{
    if es.len() == 0 {
        m
    } else {
        let m1 = if m.contains_key(es[0].0) {
            m
        } else {
            m.insert(es[0].0, es[0].1)
        };
        fold_insert(m1, es.drop_first())
    }
}

/// Some entry carries key `k`.
pub open spec fn has_key<V>(es: Seq<(int, V)>, k: int) -> bool {
    exists|i: int| 0 <= i < es.len() && (#[trigger] es[i]).0 == k
}

/// The value of the first entry carrying key `k`.
pub open spec fn first_val<V>(es: Seq<(int, V)>, k: int) -> V
    recommends
        has_key(es, k),
    decreases es.len(),
{
    if es.len() == 0 {
        arbitrary()
    } else if es[0].0 == k {
        es[0].1
    } else {
        first_val(es.drop_first(), k)
    }
}

proof fn lemma_has_key_step<V>(es: Seq<(int, V)>, k: int)
    requires
        es.len() > 0,
    ensures
        has_key(es, k) <==> (es[0].0 == k || has_key(es.drop_first(), k)),
{
    if has_key(es, k) {
        let i = choose|i: int| 0 <= i < es.len() && (#[trigger] es[i]).0 == k;
        if i > 0 {
            assert(es.drop_first()[i - 1] == es[i]);
        }
    }
    if has_key(es.drop_first(), k) {
        let i = choose|i: int| 0 <= i < es.drop_first().len() && (#[trigger] es.drop_first()[i]).0
            == k;
        assert(es[i + 1] == es.drop_first()[i]);
    }
}

/// Pointwise description of `fold_insert`: keys are the union, values
/// keep what the map had and take the first entry otherwise.
pub proof fn lemma_fold_insert<V>(m: Map<int, V>, es: Seq<(int, V)>, k: int)
    ensures
        fold_insert(m, es).contains_key(k) <==> (m.contains_key(k) || has_key(es, k)),
        m.contains_key(k) ==> fold_insert(m, es)[k] == m[k],
        !m.contains_key(k) && has_key(es, k) ==> fold_insert(m, es)[k] == first_val(es, k),
    decreases es.len(),
{
    if es.len() > 0 {
        let m1 = if m.contains_key(es[0].0) {
            m
        } else {
            m.insert(es[0].0, es[0].1)
        };
        lemma_has_key_step(es, k);
        lemma_fold_insert(m1, es.drop_first(), k);
    }
}

/// Applying the same entries twice changes nothing the first pass did
/// not already settle.
pub proof fn lemma_fold_insert_idempotent<V>(m: Map<int, V>, es: Seq<(int, V)>)
    ensures
        fold_insert(fold_insert(m, es), es) == fold_insert(m, es),
{
    let f1 = fold_insert(m, es);
    let f2 = fold_insert(f1, es);
    assert_maps_equal!(f2, f1, k => {
        lemma_fold_insert(m, es, k);
        lemma_fold_insert(f1, es, k);
    });
}

/// Two entry batches that agree on their shared keys fold to the same
/// map in either order.
pub proof fn lemma_fold_insert_commutes<V>(m: Map<int, V>, e1: Seq<(int, V)>, e2: Seq<(int, V)>)
    requires
        forall|k: int|
            #[trigger] has_key(e1, k) && #[trigger] has_key(e2, k) ==> first_val(e1, k)
                == first_val(e2, k),
    ensures
        fold_insert(fold_insert(m, e1), e2) == fold_insert(fold_insert(m, e2), e1),
{
    let a = fold_insert(fold_insert(m, e1), e2);
    let b = fold_insert(fold_insert(m, e2), e1);
    assert_maps_equal!(a, b, k => {
        lemma_fold_insert(m, e1, k);
        lemma_fold_insert(m, e2, k);
        lemma_fold_insert(fold_insert(m, e1), e2, k);
        lemma_fold_insert(fold_insert(m, e2), e1, k);
    });
}

/// The one `threads` entry a record writes.
pub open spec fn thread_entries(r: RecordV) -> Seq<(int, ThreadRowV)> {
    seq![(r.thread_id, ThreadRowV { title: r.thread_title, slug: r.thread_slug })]
}

/// The `users` entries a record writes, in post order.
pub open spec fn user_entries(r: RecordV) -> Seq<(int, Seq<char>)> {
    r.posts.map_values(|p: PostV| (p.user_id, p.username))
}

/// The `posts` row one post writes into its thread.
pub open spec fn post_row(thread_id: int, p: PostV) -> PostRowV {
    PostRowV {
        user_id: p.user_id,
        thread_id,
        thread_order: p.thread_order,
        datetime: p.datetime,
        content: spec_trim(p.message_body),
    }
}

/// The `posts` entries a record writes, in post order.
pub open spec fn post_entries(r: RecordV) -> Seq<(int, PostRowV)> {
    r.posts.map_values(|p: PostV| (p.post_id, post_row(r.thread_id, p)))
}

/// What merging a record does to the `threads` table.
pub open spec fn merge_threads(m: Map<int, ThreadRowV>, r: RecordV) -> Map<int, ThreadRowV> {
    fold_insert(m, thread_entries(r))
}

/// What merging a record does to the `users` table.
pub open spec fn merge_users(m: Map<int, Seq<char>>, r: RecordV) -> Map<int, Seq<char>> {
    fold_insert(m, user_entries(r))
}

/// What merging a record does to the `posts` table.
pub open spec fn merge_posts(m: Map<int, PostRowV>, r: RecordV) -> Map<int, PostRowV> {
    fold_insert(m, post_entries(r))
}

/// Idempotence: merging the same record twice leaves exactly the row
/// set one merge leaves, in every table, with no changed values.
pub proof fn lemma_merge_idempotent(
    threads: Map<int, ThreadRowV>,
    users: Map<int, Seq<char>>,
    posts: Map<int, PostRowV>,
    r: RecordV,
)
    ensures
        merge_threads(merge_threads(threads, r), r) == merge_threads(threads, r),
        merge_users(merge_users(users, r), r) == merge_users(users, r),
        merge_posts(merge_posts(posts, r), r) == merge_posts(posts, r),
{
    lemma_fold_insert_idempotent(threads, thread_entries(r));
    lemma_fold_insert_idempotent(users, user_entries(r));
    lemma_fold_insert_idempotent(posts, post_entries(r));
}

/// Order stability: two records whose shared post ids carry the same
/// row merge into the same `posts` table in either order, so the
/// `(thread_id, post_id) -> thread_order` mapping cannot depend on the
/// order page files are processed.
pub proof fn lemma_merge_posts_commute(m: Map<int, PostRowV>, r1: RecordV, r2: RecordV)
    requires
        forall|k: int|
            #[trigger] has_key(post_entries(r1), k) && #[trigger] has_key(post_entries(r2), k)
                ==> first_val(post_entries(r1), k) == first_val(post_entries(r2), k),
    ensures
        merge_posts(merge_posts(m, r1), r2) == merge_posts(merge_posts(m, r2), r1),
{
    lemma_fold_insert_commutes(m, post_entries(r1), post_entries(r2));
}

/// The posts table after merging a whole sequence of records, first to
/// last.
pub open spec fn merge_posts_all(m: Map<int, PostRowV>, rs: Seq<RecordV>) -> Map<int, PostRowV>
    decreases rs.len(),
{
    if rs.len() == 0 {
        m
    } else {
        merge_posts_all(merge_posts(m, rs[0]), rs.drop_first())
    }
}

/// Two records agree on every post id they share.
pub open spec fn posts_compatible(a: RecordV, b: RecordV) -> bool {
    forall|k: int|
        #[trigger] has_key(post_entries(a), k) && #[trigger] has_key(post_entries(b), k)
            ==> first_val(post_entries(a), k) == first_val(post_entries(b), k)
}

/// Exchanging two adjacent compatible records in a merge sequence
/// leaves the final posts table unchanged.
pub proof fn lemma_merge_posts_all_swap(m: Map<int, PostRowV>, rs: Seq<RecordV>, i: int)
    requires
        0 <= i < rs.len() - 1,
        posts_compatible(rs[i], rs[i + 1]),
    ensures
        merge_posts_all(m, rs) == merge_posts_all(
            m,
            rs.update(i, rs[i + 1]).update(i + 1, rs[i]),
        ),
    decreases i,
{
    let sw = rs.update(i, rs[i + 1]).update(i + 1, rs[i]);
    if i == 0 {
        reveal_with_fuel(merge_posts_all, 3);
        lemma_fold_insert_commutes(m, post_entries(rs[0]), post_entries(rs[1]));
        assert(sw[0] == rs[1]);
        assert(sw.drop_first().drop_first() =~= rs.drop_first().drop_first());
        assert(rs.drop_first()[0] == rs[1]);
        assert(sw.drop_first()[0] == rs[0]);
        assert(merge_posts(merge_posts(m, rs[0]), rs[1]) == merge_posts(
            merge_posts(m, rs[1]),
            rs[0],
        ));
    } else {
        assert(sw[0] == rs[0]);
        assert(sw.drop_first() =~= rs.drop_first().update(i - 1, rs.drop_first()[i]).update(
            i,
            rs.drop_first()[i - 1],
        ));
        assert(rs.drop_first()[i - 1] == rs[i]);
        assert(rs.drop_first()[i] == rs[i + 1]);
        lemma_merge_posts_all_swap(merge_posts(m, rs[0]), rs.drop_first(), i - 1);
    }
}

/// Every two of the records agree on the post ids they share, as
/// distinct pages of one corpus do: a post id is globally unique, so it
/// recurs only where one page file recurs, with the same row.
pub open spec fn pairwise_posts_compatible(rs: Seq<RecordV>) -> bool {
    forall|i: int, j: int|
        0 <= i < rs.len() && 0 <= j < rs.len() ==> posts_compatible(
            #[trigger] rs[i],
            #[trigger] rs[j],
        )
}

proof fn lemma_merge_posts_all_to_front(m: Map<int, PostRowV>, rs: Seq<RecordV>, k: int)
    requires
        0 <= k < rs.len(),
        pairwise_posts_compatible(rs),
    ensures
        merge_posts_all(m, rs) == merge_posts_all(m, seq![rs[k]] + rs.remove(k)),
    decreases k,
{
    if k == 0 {
        assert(seq![rs[0]] + rs.remove(0) =~= rs);
    } else {
        let sw = rs.update(k - 1, rs[k]).update(k, rs[k - 1]);
        lemma_merge_posts_all_swap(m, rs, k - 1);
        assert forall|i: int, j: int|
            0 <= i < sw.len() && 0 <= j < sw.len() implies posts_compatible(
            #[trigger] sw[i],
            #[trigger] sw[j],
        ) by {
            assert(sw[i] == rs[i] || sw[i] == rs[k - 1] || sw[i] == rs[k]);
            assert(sw[j] == rs[j] || sw[j] == rs[k - 1] || sw[j] == rs[k]);
        }
        lemma_merge_posts_all_to_front(m, sw, k - 1);
        assert(sw[k - 1] == rs[k]);
        assert(sw.remove(k - 1) =~= rs.remove(k));
    }
}

/// Order stability under shuffling, in full: two sequences holding the
/// same page records (as a multiset, so in any permutation) merge into
/// the same posts table, and so into the same
/// `(thread_id, post_id) -> thread_order` mapping.
pub proof fn lemma_merge_posts_all_any_order(
    m: Map<int, PostRowV>,
    rs1: Seq<RecordV>,
    rs2: Seq<RecordV>,
)
    requires
        rs1.to_multiset() == rs2.to_multiset(),
        pairwise_posts_compatible(rs1),
    ensures
        merge_posts_all(m, rs1) == merge_posts_all(m, rs2),
    decreases rs1.len(),
{
    broadcast use vstd::seq_lib::group_to_multiset_ensures;

    if rs2.len() == 0 {
        assert(rs1.to_multiset().len() == rs1.len());
        assert(rs2.to_multiset().len() == rs2.len());
        assert(rs1.len() == 0);
    } else {
        let x = rs2[0];
        assert(rs2.contains(x));
        assert(rs1.to_multiset().count(x) > 0);
        assert(rs1.contains(x));
        let k = choose|k: int| 0 <= k < rs1.len() && rs1[k] == x;
        lemma_merge_posts_all_to_front(m, rs1, k);
        let rest1 = rs1.remove(k);
        let rest2 = rs2.drop_first();
        assert((seq![x] + rest1)[0] == x);
        assert((seq![x] + rest1).drop_first() =~= rest1);
        assert(rest2 =~= rs2.remove(0));
        assert(rest1.to_multiset() == rest2.to_multiset());
        assert forall|i: int, j: int|
            0 <= i < rest1.len() && 0 <= j < rest1.len() implies posts_compatible(
            #[trigger] rest1[i],
            #[trigger] rest1[j],
        ) by {
            assert(rest1[i] == rs1[if i < k {
                i
            } else {
                i + 1
            }]);
            assert(rest1[j] == rs1[if j < k {
                j
            } else {
                j + 1
            }]);
        }
        lemma_merge_posts_all_any_order(merge_posts(m, x), rest1, rest2);
    }
}

/// Anonymous collapse: a record with any guest post puts the single
/// row 0 into `users`; where the table lacked it, the first guest's
/// display name is the one kept.
pub proof fn lemma_anonymous_collapse(users: Map<int, Seq<char>>, r: RecordV, i: int)
    requires
        0 <= i < r.posts.len(),
        r.posts[i].user_id == 0,
    ensures
        merge_users(users, r).contains_key(0),
        !users.contains_key(0) ==> merge_users(users, r)[0] == first_val(user_entries(r), 0),
{
    assert((user_entries(r)[i]).0 == 0);
    assert(has_key(user_entries(r), 0));
    lemma_fold_insert(users, user_entries(r), 0);
}

} // verus!
