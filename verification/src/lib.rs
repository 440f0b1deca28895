//! Watches a public procurement feed for newly published notices, matches each
//! notice against user subscriptions (keyword and price filters), and prepares
//! exactly one notification per matching user per notice.
//!
//! The library holds the verified core: the matching engine, the bounded
//! seen-identifier window of the feed poller, the subscription catalog cursor,
//! the recipient deduplication of the fanout sweep, and the message building.
//! Network transport and SMTP delivery live outside, in the surrounding
//! application, which feeds plain values into these functions.

pub mod advertisment;
pub mod catalog;
pub mod listing;
pub mod notify;
pub mod recipients;
pub mod scraper;
pub mod subscription;
pub mod text;
