//! The thread extraction record: one parsed page of a forum thread, with
//! its mathematical view, and the errors extraction can report.

use vstd::prelude::*;

verus! {

/// Number of posts rendered on one page; fixes the stride of
/// `thread_order` between consecutive pages.
pub const POSTS_PER_PAGE: i32 = 15;

/// A structurally required element or attribute that a document lacked.
#[derive(Debug, Clone, Copy, PartialEq, Eq, Structural)]
pub enum Field {
    CanonicalUrl,
    Title,
    PostId,
    Timestamp,
    Author,
    Body,
}

/// Why one page could not be extracted. Fatal to that page only.
#[derive(Debug, Clone, Copy, PartialEq, Eq, Structural)]
pub enum ExtractError {
    /// A required element or attribute is absent.
    MissingRequiredField(Field),
    /// A value that must parse as a number does not.
    MalformedIdentifier,
}

/// One post as extracted from a page.
#[derive(Debug, Clone, PartialEq)]
pub struct PostData {
    pub post_id: i32,
    pub user_id: i32,
    pub username: String,
    pub thread_order: i32,
    pub datetime: String,
    pub message_body: String,
}

/// Mathematical view of a post.
#[verifier::ext_equal]
pub ghost struct PostV {
    pub post_id: int,
    pub user_id: int,
    pub username: Seq<char>,
    pub thread_order: int,
    pub datetime: Seq<char>,
    pub message_body: Seq<char>,
}

impl View for PostData {
    type V = PostV;

    open spec fn view(&self) -> PostV {
        PostV {
            post_id: self.post_id as int,
            user_id: self.user_id as int,
            username: self.username@,
            thread_order: self.thread_order as int,
            datetime: self.datetime@,
            message_body: self.message_body@,
        }
    }
}

/// One thread extraction record: thread identity and title plus the
/// page's posts in document order.
#[derive(Debug, Clone, PartialEq)]
pub struct ForumThreadData {
    pub thread_slug: String,
    pub thread_id: u64,
    pub thread_title: String,
    pub posts: Vec<PostData>,
}

/// Mathematical view of a record.
#[verifier::ext_equal]
pub ghost struct RecordV {
    pub thread_slug: Seq<char>,
    pub thread_id: int,
    pub thread_title: Seq<char>,
    pub posts: Seq<PostV>,
}

impl View for ForumThreadData {
    type V = RecordV;

    open spec fn view(&self) -> RecordV {
        RecordV {
            thread_slug: self.thread_slug@,
            thread_id: self.thread_id as int,
            thread_title: self.thread_title@,
            posts: self.posts@.map_values(|p: PostData| p@),
        }
    }
}

/// The posts' orders follow the page formula `p * 15 + i` for page `p`.
pub open spec fn orders_from_page(posts: Seq<PostV>, p: int) -> bool {
    forall|i: int|
        0 <= i < posts.len() ==> #[trigger] posts[i].thread_order == p * (POSTS_PER_PAGE as int)
            + i
}

/// A record some page with a well-formed, in-range page number could
/// have produced: its orders are consecutive from a page base.
pub open spec fn wf_record(r: RecordV) -> bool {
    exists|p: int|
        {
            &&& 0 <= p <= i32::MAX
            &&& #[trigger] orders_from_page(r.posts, p)
            &&& r.posts.len() > 0 ==> p * (POSTS_PER_PAGE as int) + r.posts.len() - 1 <= i32::MAX
        }
}

} // verus!
