//! Assembling one page's raw extracted fields into a thread extraction
//! record, with an exact functional specification over the fields' views.

use vstd::prelude::*;
use crate::record::{ExtractError, Field, ForumThreadData, PostData, PostV, RecordV, POSTS_PER_PAGE,
    orders_from_page, wf_record};
use crate::text::{spec_split, split_char, spec_parse_u64, parse_u64_digits, spec_parse_i32,
    parse_i32_digits, spec_trim, trim_str, spec_join_space, join_space, lemma_dec_val_nonneg};

verus! {

/// A linked author element: its numeric-id attribute, if present, and
/// its text fragments in document order.
pub struct RawLinkedAuthor {
    pub user_id_text: Option<String>,
    pub name_parts: Vec<String>,
}

/// One post container's raw fields, each `None` where the document
/// lacked the element or attribute.
pub struct RawPost {
    /// The data attribute encoding the post id, of the form `"...-<id>"`.
    pub data_content: Option<String>,
    /// The machine-readable datetime attribute of the timestamp element.
    pub datetime: Option<String>,
    /// The linked author, if such an element is present.
    pub linked_author: Option<RawLinkedAuthor>,
    /// The avatar fallback: outer `None` if no avatar element was found,
    /// inner option its title attribute. Read only where no linked
    /// author is present.
    pub avatar_title: Option<Option<String>>,
    /// The post body's inner markup, kept verbatim.
    pub body: Option<String>,
}

/// One page's raw fields: canonical URL, title markup, pagination
/// marker text, and the post containers in document order.
pub struct RawPage {
    pub og_url: Option<String>,
    pub title: Option<String>,
    pub page_marker: Option<String>,
    pub posts: Vec<RawPost>,
}

/// View of a linked author's raw fields.
#[verifier::ext_equal]
pub ghost struct RawLinkedAuthorV {
    pub user_id_text: Option<Seq<char>>,
    pub name_parts: Seq<Seq<char>>,
}

/// View of one post container's raw fields.
#[verifier::ext_equal]
pub ghost struct RawPostV {
    pub data_content: Option<Seq<char>>,
    pub datetime: Option<Seq<char>>,
    pub linked_author: Option<RawLinkedAuthorV>,
    pub avatar_title: Option<Option<Seq<char>>>,
    pub body: Option<Seq<char>>,
}

/// View of one page's raw fields.
#[verifier::ext_equal]
pub ghost struct RawPageV {
    pub og_url: Option<Seq<char>>,
    pub title: Option<Seq<char>>,
    pub page_marker: Option<Seq<char>>,
    pub posts: Seq<RawPostV>,
}

impl DeepView for RawLinkedAuthor {
    type V = RawLinkedAuthorV;

    open spec fn deep_view(&self) -> RawLinkedAuthorV {
        RawLinkedAuthorV {
            user_id_text: self.user_id_text.deep_view(),
            name_parts: self.name_parts.deep_view(),
        }
    }
}

impl DeepView for RawPost {
    type V = RawPostV;

    open spec fn deep_view(&self) -> RawPostV {
        RawPostV {
            data_content: self.data_content.deep_view(),
            datetime: self.datetime.deep_view(),
            linked_author: self.linked_author.deep_view(),
            avatar_title: self.avatar_title.deep_view(),
            body: self.body.deep_view(),
        }
    }
}

impl DeepView for RawPage {
    type V = RawPageV;

    open spec fn deep_view(&self) -> RawPageV {
        RawPageV {
            og_url: self.og_url.deep_view(),
            title: self.title.deep_view(),
            page_marker: self.page_marker.deep_view(),
            posts: self.posts.deep_view(),
        }
    }
}

/// Thread identity from a canonical URL: the second-to-last `/`-segment
/// is `"<slug>.<id>"`; `None` where that shape is absent or the id does
/// not parse.
pub open spec fn spec_thread_identity(url: Seq<char>) -> Option<(Seq<char>, u64)> {
    let parts = spec_split(url, '/');
    if parts.len() < 2 {
        None
    } else {
        let sp = spec_split(parts[parts.len() - 2], '.');
        if sp.len() < 2 {
            None
        } else {
            match spec_parse_u64(sp[1]) {
                None => None,
                Some(id) => Some((sp[0], id)),
            }
        }
    }
}

/// Splits the canonical URL into thread slug and numeric thread id.
pub fn extract_thread_identity(url: &str) -> (r: Option<(String, u64)>)
    ensures
        r matches Some(t) ==> spec_thread_identity(url@) matches Some(v) && t.0@ == v.0 && t.1
            == v.1,
        r is None ==> spec_thread_identity(url@) is None,
{
    let parts = split_char(url, '/');
    if parts.len() < 2 {
        return None;
    }
    let full = &parts[parts.len() - 2];
    let sp = split_char(full.as_str(), '.');
    if sp.len() < 2 {
        return None;
    }
    match parse_u64_digits(sp[1].as_str()) {
        None => None,
        Some(id) => Some((sp[0].clone(), id)),
    }
}

/// The page number a pagination marker yields for a page of `n_posts`
/// posts: the marker's digits where present, in `i32` range and small
/// enough that every order on this page fits; otherwise 0.
pub open spec fn spec_page_value(marker: Option<Seq<char>>, n_posts: int) -> int {
    match marker {
        None => 0,
        Some(t) => match spec_parse_i32(t) {
            None => 0,
            Some(p) => if n_posts == 0 || p * (POSTS_PER_PAGE as int) + (n_posts - 1)
                <= i32::MAX {
                p as int
            } else {
                0
            },
        },
    }
}

/// The post id a raw post encodes: the second `-`-delimited token of its
/// data attribute, as a number.
pub open spec fn spec_post_id(p: RawPostV) -> Result<int, ExtractError> {
    match p.data_content {
        None => Err(ExtractError::MissingRequiredField(Field::PostId)),
        Some(t) => {
            let toks = spec_split(t, '-');
            if toks.len() < 2 {
                Err(ExtractError::MalformedIdentifier)
            } else {
                match spec_parse_i32(toks[1]) {
                    None => Err(ExtractError::MalformedIdentifier),
                    Some(id) => Ok(id as int),
                }
            }
        },
    }
}

/// The author a raw post resolves to: a linked author's id and
/// space-joined text, else the avatar's title with the anonymous id 0.
pub open spec fn spec_author(p: RawPostV) -> Result<(int, Seq<char>), ExtractError> {
    match p.linked_author {
        Some(la) => match la.user_id_text {
            None => Err(ExtractError::MissingRequiredField(Field::Author)),
            Some(t) => match spec_parse_i32(t) {
                None => Err(ExtractError::MalformedIdentifier),
                Some(uid) => Ok((uid as int, spec_join_space(la.name_parts))),
            },
        },
        None => match p.avatar_title {
            Some(Some(t)) => Ok((0, t)),
            _ => Err(ExtractError::MissingRequiredField(Field::Author)),
        },
    }
}

/// One post's view from its raw fields, at index `i` of a page numbered
/// `page`; the first missing or malformed field decides the error.
pub open spec fn spec_post(p: RawPostV, page: int, i: int) -> Result<PostV, ExtractError> {
    match spec_post_id(p) {
        Err(e) => Err(e),
        Ok(pid) => match p.datetime {
            None => Err(ExtractError::MissingRequiredField(Field::Timestamp)),
            Some(dt) => match spec_author(p) {
                Err(e) => Err(e),
                Ok(author) => match p.body {
                    None => Err(ExtractError::MissingRequiredField(Field::Body)),
                    Some(b) => Ok(
                        PostV {
                            post_id: pid,
                            user_id: author.0,
                            username: author.1,
                            thread_order: page * (POSTS_PER_PAGE as int) + i,
                            datetime: dt,
                            message_body: b,
                        },
                    ),
                },
            },
        },
    }
}

/// The posts of a page in document order; the first failing post's
/// error aborts the whole page.
pub open spec fn spec_posts(posts: Seq<RawPostV>, page: int) -> Result<Seq<PostV>, ExtractError>
    decreases posts.len(),
{
    if posts.len() == 0 {
        Ok(Seq::empty())
    } else {
        match spec_posts(posts.drop_last(), page) {
            Err(e) => Err(e),
            Ok(s) => match spec_post(posts.last(), page, posts.len() - 1) {
                Err(e) => Err(e),
                Ok(pv) => Ok(s.push(pv)),
            },
        }
    }
}

/// The record a raw page yields: canonical URL first, then thread
/// identity, then title, then the posts; the page number never fails.
pub open spec fn spec_build(raw: RawPageV) -> Result<RecordV, ExtractError> {
    match raw.og_url {
        None => Err(ExtractError::MissingRequiredField(Field::CanonicalUrl)),
        Some(u) => match spec_thread_identity(u) {
            None => Err(ExtractError::MalformedIdentifier),
            Some(ident) => match raw.title {
                None => Err(ExtractError::MissingRequiredField(Field::Title)),
                Some(t) => {
                    let page = spec_page_value(raw.page_marker, raw.posts.len() as int);
                    match spec_posts(raw.posts, page) {
                        Err(e) => Err(e),
                        Ok(ps) => Ok(
                            RecordV {
                                thread_slug: ident.0,
                                thread_id: ident.1 as int,
                                thread_title: spec_trim(t),
                                posts: ps,
                            },
                        ),
                    }
                },
            },
        },
    }
}

/// After identity, title and page number are settled, the posts alone
/// decide what `spec_build` yields.
spec fn mid_build(raw: RawPageV, page: int, slug: Seq<char>, id: int, title: Seq<char>) -> bool {
    spec_build(raw) == (match spec_posts(raw.posts, page) {
        Err(e) => Err::<RecordV, ExtractError>(e),
        Ok(ps) => Ok(
            RecordV { thread_slug: slug, thread_id: id, thread_title: title, posts: ps },
        ),
    })
}

proof fn lemma_spec_posts_err_prefix(posts: Seq<RawPostV>, page: int, j: int)
    requires
        0 <= j <= posts.len(),
        spec_posts(posts.take(j), page) is Err,
    ensures
        spec_posts(posts, page) == spec_posts(posts.take(j), page),
    decreases posts.len() - j,
{
    if j == posts.len() {
        assert(posts.take(j) =~= posts);
    } else {
        assert(posts.take(j + 1).drop_last() =~= posts.take(j));
        assert(posts.take(j + 1).last() == posts[j]);
        lemma_spec_posts_err_prefix(posts, page, j + 1);
    }
}

proof fn lemma_spec_posts_ok(posts: Seq<RawPostV>, page: int)
    requires
        spec_posts(posts, page) is Ok,
    ensures
        spec_posts(posts, page) matches Ok(s) ==> s.len() == posts.len() && orders_from_page(
            s,
            page,
        ),
    decreases posts.len(),
{
    if posts.len() > 0 {
        lemma_spec_posts_ok(posts.drop_last(), page);
    }
}

/// Thread-order formula: on a page whose pagination marker reads `p`,
/// with every order on the page in range, the post at 0-based position
/// `i` gets `thread_order == p * 15 + i`.
pub proof fn lemma_thread_order_formula(raw: RawPageV, rec: RecordV, p: i32, i: int)
    requires
        spec_build(raw) == Ok::<RecordV, ExtractError>(rec),
        match raw.page_marker {
            Some(m) => spec_parse_i32(m) == Some(p),
            None => p == 0,
        },
        raw.posts.len() == 0 || (p as int) * (POSTS_PER_PAGE as int) + raw.posts.len() - 1
            <= i32::MAX,
        0 <= i < rec.posts.len(),
    ensures
        rec.posts[i].thread_order == (p as int) * (POSTS_PER_PAGE as int) + i,
{
    lemma_spec_posts_ok(raw.posts, p as int);
}

/// Missing pagination marker: an otherwise-valid page without one is
/// treated as the first page, so every post's order is its in-page
/// index `0 * 15 + i`.
pub proof fn lemma_missing_marker_orders(raw: RawPageV, rec: RecordV, i: int)
    requires
        spec_build(raw) == Ok::<RecordV, ExtractError>(rec),
        raw.page_marker is None,
        0 <= i < rec.posts.len(),
    ensures
        rec.posts[i].thread_order == i,
{
    lemma_spec_posts_ok(raw.posts, 0);
}

/// Builds the record a raw page yields, exactly as `spec_build` states;
/// a page with more posts than ids can number is malformed.
pub fn build_record(raw: &RawPage) -> (r: Result<ForumThreadData, ExtractError>)
    ensures
        raw.posts@.len() <= i32::MAX ==> match spec_build(raw.deep_view()) {
            Ok(v) => r matches Ok(rec) && rec@ == v,
            Err(e) => r matches Err(e2) && e2 == e,
        },
        raw.posts@.len() > i32::MAX ==> (r matches Err(e) && e == ExtractError::MalformedIdentifier),
        r matches Ok(rec) ==> wf_record(rec@),
{
    let ghost dv = raw.deep_view();
    if raw.posts.len() > i32::MAX as usize {
        return Err(ExtractError::MalformedIdentifier);
    }
    let og = match &raw.og_url {
        None => {
            return Err(ExtractError::MissingRequiredField(Field::CanonicalUrl));
        },
        Some(u) => u,
    };
    let (thread_slug, thread_id) = match extract_thread_identity(og.as_str()) {
        None => {
            return Err(ExtractError::MalformedIdentifier);
        },
        Some(t) => t,
    };
    let thread_title = match &raw.title {
        None => {
            return Err(ExtractError::MissingRequiredField(Field::Title));
        },
        Some(t) => trim_str(t.as_str()),
    };
    let n = raw.posts.len();
    let page: i32 = match &raw.page_marker {
        None => 0,
        Some(m) => match parse_i32_digits(m.as_str()) {
            None => 0,
            Some(p) => {
                proof {
                    lemma_dec_val_nonneg(m@);
                }
                if n == 0 || (p as i64) * (POSTS_PER_PAGE as i64) + (n as i64 - 1) <= i32::MAX
                    as i64 {
                    p
                } else {
                    0
                }
            },
        },
    };
    let ghost pg = page as int;
    let mut posts: Vec<PostData> = Vec::new();
    let mut i: usize = 0;
    proof {
        assert(mid_build(dv, pg, thread_slug@, thread_id as int, thread_title@));
        assert(dv.posts.take(0) =~= Seq::<RawPostV>::empty());
        assert(posts@.map_values(|p: PostData| p@) =~= Seq::<PostV>::empty());
    }
    while i < n
        invariant
            dv == raw.deep_view(),
            n == raw.posts@.len() <= i32::MAX,
            i <= n,
            0 <= pg == page,
            n > 0 ==> pg * (POSTS_PER_PAGE as int) + (n - 1) <= i32::MAX,
            mid_build(dv, pg, thread_slug@, thread_id as int, thread_title@),
            spec_posts(dv.posts.take(i as int), pg) == Ok::<Seq<PostV>, ExtractError>(
                posts@.map_values(|p: PostData| p@),
            ),
        decreases n - i,
    {
        proof {
            assert(dv.posts.take(i + 1).drop_last() =~= dv.posts.take(i as int));
            assert(dv.posts.take(i + 1).last() == dv.posts[i as int]);
        }
        let rp = &raw.posts[i];
        proof {
            assert(dv.posts[i as int] == rp.deep_view());
        }
        let ghost before = posts@.map_values(|p: PostData| p@);
        let post_id: i32 = match &rp.data_content {
            None => {
                proof {
                    lemma_spec_posts_err_prefix(dv.posts, pg, i + 1);
                }
                return Err(ExtractError::MissingRequiredField(Field::PostId));
            },
            Some(t) => {
                let toks = split_char(t.as_str(), '-');
                if toks.len() < 2 {
                    proof {
                        lemma_spec_posts_err_prefix(dv.posts, pg, i + 1);
                    }
                    return Err(ExtractError::MalformedIdentifier);
                }
                match parse_i32_digits(toks[1].as_str()) {
                    None => {
                        proof {
                            lemma_spec_posts_err_prefix(dv.posts, pg, i + 1);
                        }
                        return Err(ExtractError::MalformedIdentifier);
                    },
                    Some(id) => id,
                }
            },
        };
        let datetime = match &rp.datetime {
            None => {
                proof {
                    lemma_spec_posts_err_prefix(dv.posts, pg, i + 1);
                }
                return Err(ExtractError::MissingRequiredField(Field::Timestamp));
            },
            Some(d) => d.clone(),
        };
        let (user_id, username): (i32, String) = match &rp.linked_author {
            Some(la) => match &la.user_id_text {
                None => {
                    proof {
                        lemma_spec_posts_err_prefix(dv.posts, pg, i + 1);
                    }
                    return Err(ExtractError::MissingRequiredField(Field::Author));
                },
                Some(t) => match parse_i32_digits(t.as_str()) {
                    None => {
                        proof {
                            lemma_spec_posts_err_prefix(dv.posts, pg, i + 1);
                        }
                        return Err(ExtractError::MalformedIdentifier);
                    },
                    Some(uid) => {
                        proof {
                            assert(la.name_parts.deep_view() =~= la.name_parts@.map_values(
                                |s: String| s@,
                            ));
                        }
                        (uid, join_space(&la.name_parts))
                    },
                },
            },
            None => match &rp.avatar_title {
                Some(Some(t)) => (0, t.clone()),
                _ => {
                    proof {
                        lemma_spec_posts_err_prefix(dv.posts, pg, i + 1);
                    }
                    return Err(ExtractError::MissingRequiredField(Field::Author));
                },
            },
        };
        let message_body = match &rp.body {
            None => {
                proof {
                    lemma_spec_posts_err_prefix(dv.posts, pg, i + 1);
                }
                return Err(ExtractError::MissingRequiredField(Field::Body));
            },
            Some(b) => b.clone(),
        };
        let thread_order: i32 = page * POSTS_PER_PAGE + (i as i32);
        let pd = PostData { post_id, user_id, username, thread_order, datetime, message_body };
        posts.push(pd);
        proof {
            assert(posts@.map_values(|p: PostData| p@) =~= before.push(pd@));
        }
        i += 1;
    }
    proof {
        assert(dv.posts.take(n as int) =~= dv.posts);
        lemma_spec_posts_ok(dv.posts, pg);
    }
    let rec = ForumThreadData { thread_slug, thread_id, thread_title, posts };
    proof {
        assert(spec_build(dv) matches Ok(v) && rec@ =~= v);
        assert(orders_from_page(rec@.posts, pg));
        assert(wf_record(rec@));
    }
    Ok(rec)
}

} // verus!
