//! Deep-link capture: a single-slot cache of the most recently delivered
//! batch of URLs, a broadcaster that fans each new batch out to subscribers
//! exactly once each, and defensive decoding of payloads arriving from a
//! foreign runtime bridge. The three ingestion paths — startup snapshot,
//! live OS notification, and foreign callback bridge — all run through the
//! same replace-then-publish pipeline.

pub mod bridge;
pub mod broadcast;
pub mod cache;
pub mod deep_link;
