//! Provider keyed on the player-assigned track identifier: its numeric
//! suffix, after the last `/`, is used as the catalog id directly, so no
//! search is needed.

use vstd::prelude::*;

use crate::fetcher::{
    finished_error,
    Config,
    FetchSession,
    LyricsOutcome,
    ProviderAction,
    SessionPhase,
    TrackMeta,
};
use crate::text::{numeric_suffix, numeric_suffix_spec};

verus! {

pub struct NeteaseTrackIDLyricProvider {}

/// The catalog id embedded in the player's track identifier: the numeric
/// suffix after the last `/`, when the identifier exists and that suffix
/// parses as a decimal `u64`.
pub open spec fn music_id_spec(meta: &TrackMeta) -> Option<u64> {
    match meta.track_id {
        Some(s) => numeric_suffix_spec(s@),
        None => None,
    }
}

/// What starting a trackid lookup yields: with a numeric id, retries
/// enabled, and a positive budget, one fetch is issued for that id;
/// otherwise the session ends at once with an error.
pub open spec fn trackid_start(meta: &TrackMeta, cfg: &Config, r: (FetchSession, ProviderAction)) -> bool {
    &&& r.0.wf()
    &&& r.0.retry_enabled == cfg.online_search_retry
    &&& r.0.max_retries == cfg.max_retries
    &&& match music_id_spec(meta) {
        Some(id) => if cfg.online_search_retry && cfg.max_retries > 0 {
            &&& r.0.phase is AwaitingLyric
            &&& r.0.song_id == id
            &&& r.0.attempts == 1
            &&& r.1 == (ProviderAction::FetchLyric { song_id: id })
        } else {
            finished_error(r.0, r.1)
        },
        None => finished_error(r.0, r.1),
    }
}

impl NeteaseTrackIDLyricProvider {
    /// Begin a lookup for `metadata`: the application performs the
    /// returned action and feeds what it observed to `FetchSession::step`.
    pub fn get_lyric_by_metadata(&self, metadata: &TrackMeta, config: &Config) -> (r: (
        FetchSession,
        ProviderAction,
    ))
        ensures
            trackid_start(metadata, config, r),
    {
        let id_opt: Option<u64> = match &metadata.track_id {
            Some(t) => numeric_suffix(t.as_str()),
            None => None,
        };
        match id_opt {
            Some(id) => {
                if config.online_search_retry && config.max_retries > 0 {
                    (
                        FetchSession {
                            phase: SessionPhase::AwaitingLyric,
                            title: String::new(),
                            length_ms: metadata.length_ms,
                            retry_enabled: config.online_search_retry,
                            max_retries: config.max_retries,
                            song_id: id,
                            attempts: 1,
                        },
                        ProviderAction::FetchLyric { song_id: id },
                    )
                } else {
                    (
                        FetchSession {
                            phase: SessionPhase::Finished,
                            title: String::new(),
                            length_ms: metadata.length_ms,
                            retry_enabled: config.online_search_retry,
                            max_retries: config.max_retries,
                            song_id: 0,
                            attempts: 0,
                        },
                        ProviderAction::Finish {
                            outcome: LyricsOutcome {
                                lines: Vec::new(),
                                found: false,
                                is_error: true,
                            },
                        },
                    )
                }
            },
            None => {
                (
                    FetchSession {
                        phase: SessionPhase::Finished,
                        title: String::new(),
                        length_ms: metadata.length_ms,
                        retry_enabled: config.online_search_retry,
                        max_retries: config.max_retries,
                        song_id: 0,
                        attempts: 0,
                    },
                    ProviderAction::Finish {
                        outcome: LyricsOutcome { lines: Vec::new(), found: false, is_error: true },
                    },
                )
            },
        }
    }

    /// Availability: the track identifier exists and ends in a numeric
    /// suffix.  A pure predicate of its inputs.
    pub fn is_available_by_metadata(&self, metadata: &TrackMeta) -> (r: bool)
        ensures
            r == (music_id_spec(metadata) is Some),
    {
        match &metadata.track_id {
            Some(t) => numeric_suffix(t.as_str()).is_some(),
            None => false,
        }
    }
}

} // verus!
