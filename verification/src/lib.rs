//! Timed-lyric acquisition engine.
//!
//! The crate turns raw, timestamp-tagged lyric text into an ordered model of
//! timed lines, decides which catalog search result matches a playing track,
//! and runs the bounded retry protocol that governs lyric fetching.  Network
//! requests themselves are issued by the embedding application, which drives
//! the session state machines exposed here.

pub mod fetcher;
mod json;
pub mod lyric_parser;
pub mod lyric_providers;
pub mod text;
