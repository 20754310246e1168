//! Reading a page snapshot through HTML field locators. The document
//! tree and its queries come from the scraper crate behind trusted
//! wrappers; scraping is a pure function of the page text, so its
//! result is named, and everything that interprets it is verified.

use vstd::prelude::*;
use scraper::{ElementRef, Html, Selector};
use crate::page::{RawLinkedAuthor, RawPage, RawPost, RawPageV, build_record, spec_build};
use crate::record::{ExtractError, ForumThreadData, wf_record};

verus! {

#[verifier::external_type_specification]
#[verifier::external_body]
pub struct ExSelector(Selector);

#[verifier::external_type_specification]
#[verifier::external_body]
pub struct ExElementRef<'a>(ElementRef<'a>);

/// The fixed set of precompiled structural queries: one per field of
/// interest, built once and shared read-only by every parse. The fields
/// are private, so every value of this type holds the same eight
/// locator expressions.
pub struct Selectors {
    og_url_selector: Selector,
    title_selector: Selector,
    post_selector: Selector,
    page_selector: Selector,
    datetime_selector: Selector,
    user_selector: Selector,
    avatar_selector: Selector,
    message_body_selector: Selector,
}

impl Selectors {
    /// Relies on scraper's Selector::parse, which fails only on a
    /// malformed selector expression: the eight locator expressions
    /// here are fixed, well-formed literals, so construction always
    /// succeeds. A failure would be a startup-time configuration
    /// error, on which the process cannot proceed.
    #[verifier::external_body]
    pub fn new() -> (r: Selectors) {
        Selectors {
            og_url_selector: Selector::parse("meta[property=\"og:url\"]").unwrap(),
            title_selector: Selector::parse("h1.p-title-value").unwrap(),
            post_selector: Selector::parse("article.message--post").unwrap(),
            page_selector: Selector::parse(".pageNav-page--current").unwrap(),
            datetime_selector: Selector::parse(".message-header time").unwrap(),
            user_selector: Selector::parse("a.username").unwrap(),
            avatar_selector: Selector::parse("span.avatar").unwrap(),
            message_body_selector: Selector::parse("article.message-body").unwrap(),
        }
    }
}

/// The raw fields the fixed field locators yield on a page text: the
/// first canonical-URL, title and pagination-marker matches, and each
/// post container's attributes, timestamp, author parts and body, in
/// document order. Parsing and selecting read nothing but the text, so
/// this is a function of the text alone.
pub uninterp spec fn scraped_of(html: Seq<char>) -> RawPageV;

/// Relies on scraper's ElementRef::{attr, select, inner_html, text}:
/// one post container's raw fields, each `None` where the element or
/// attribute is absent.
#[verifier::external_body]
fn raw_post_of(el: &ElementRef<'_>, sels: &Selectors) -> (r: RawPost) {
    let user = el.select(&sels.user_selector).next();
    let time = el.select(&sels.datetime_selector).next();
    RawPost {
        data_content: el.attr("data-content").map(str::to_string),
        datetime: time.and_then(|t| t.attr("datetime")).map(str::to_string),
        linked_author: user.map(|u| RawLinkedAuthor {
            user_id_text: u.attr("data-user-id").map(str::to_string),
            name_parts: u.text().map(str::to_string).collect(),
        }),
        avatar_title: el.select(&sels.avatar_selector).next().map(|a| a.attr("title").map(str::to_string)),
        body: el.select(&sels.message_body_selector).next().map(|b| b.inner_html()),
    }
}

/// Relies on scraper's Html::parse_document and Html::select: parses
/// the text into a document tree and reads the raw fields through the
/// fixed locators. Every `Selectors` value holds the same fixed
/// locator set, and the queries depend on the document alone, so the
/// result is exactly `scraped_of` the text.
#[verifier::external_body]
pub(crate) fn scrape_page(html: &str, sels: &Selectors) -> (r: RawPage)
    ensures
        r.deep_view() == scraped_of(html@),
{
    let doc = Html::parse_document(html);
    RawPage {
        og_url: doc.select(&sels.og_url_selector).next().and_then(|e| e.attr("content")).map(
            str::to_string,
        ),
        title: doc.select(&sels.title_selector).next().map(|e| e.inner_html()),
        page_marker: doc.select(&sels.page_selector).next().map(|e| e.inner_html()),
        posts: doc.select(&sels.post_selector).map(|el| raw_post_of(&el, sels)).collect(),
    }
}

/// Parses one page snapshot into its thread extraction record: exactly
/// `spec_build` applied to the scraped raw fields of the text, with a
/// page of more posts than ids can number rejected as malformed; any
/// record returned orders its posts by the page formula.
pub fn process_file(html_content: &str, selectors: &Selectors) -> (r: Result<
    ForumThreadData,
    ExtractError,
>)
    ensures
        scraped_of(html_content@).posts.len() <= i32::MAX ==> match spec_build(
            scraped_of(html_content@),
        ) {
            Ok(v) => r matches Ok(rec) && rec@ == v,
            Err(e) => r matches Err(e2) && e2 == e,
        },
        scraped_of(html_content@).posts.len() > i32::MAX ==> (r matches Err(e) && e
            == ExtractError::MalformedIdentifier),
        r matches Ok(rec) ==> wf_record(rec@),
{
    let raw = scrape_page(html_content, selectors);
    build_record(&raw)
}

} // verus!
