//! Extraction and persistence pipeline for archived forum-thread pages.
//!
//! A page of HTML is scraped into a raw field set, assembled into a
//! `ForumThreadData` record (thread identity, title, ordered posts), and
//! merged idempotently into a relational store.

pub mod merge;
pub mod page;
pub mod record;
pub mod scrape;
pub mod store;
pub mod text;
