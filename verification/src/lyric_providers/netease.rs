//! Catalog search provider: builds the configured search query, extracts
//! search candidates from the raw response, and starts a lookup session
//! that matches candidates against the track before fetching.

use vstd::prelude::*;

use crate::fetcher::{Config, FetchSession, ProviderAction, SearchCandidate, SessionPhase, TrackMeta};
use crate::json::{json_as_array, json_as_str, json_as_u64, json_get, json_parse};

verus! {

/// Provider that resolves lyrics by searching the remote catalog with the
/// track's title and first artist.
pub struct NeteaseLyricProvider {}

/// First artist of the track, or the empty string when none is listed.
pub open spec fn first_artist(artists: Seq<String>) -> Seq<char> {
    if artists.len() > 0 {
        artists[0]@
    } else {
        Seq::empty()
    }
}

/// The configured search query: title and first artist joined by one
/// space, title alone, or empty for an unknown pattern value.
pub open spec fn search_query_spec(pattern: u64, title: Seq<char>, artist: Seq<char>) -> Seq<char> {
    if pattern == 0 {
        title + seq![' '] + artist
    } else if pattern == 1 {
        title
    } else {
        Seq::empty()
    }
}

fn build_query(metadata: &TrackMeta, config: &Config) -> (q: String)
    ensures
        q@ == search_query_spec(
            config.online_search_pattern,
            metadata.title@,
            first_artist(metadata.artists@),
        ),
{
    if config.online_search_pattern == 0 {
        let mut q: String = metadata.title.clone();
        q.append(" ");
        proof {
            reveal_strlit(" ");
            assert(" "@ =~= seq![' ']);
        }
        if metadata.artists.len() > 0 {
            q.append(metadata.artists[0].as_str());
        } else {
            proof {
                assert(metadata.title@ + seq![' '] + Seq::<char>::empty() =~= metadata.title@
                    + seq![' ']);
            }
        }
        q
    } else if config.online_search_pattern == 1 {
        metadata.title.clone()
    } else {
        String::new()
    }
}

/// What starting a catalog-searching lookup yields: a fresh session
/// awaiting the search response, configured from `config`, plus a search
/// action carrying the configured query.
pub open spec fn search_start(meta: &TrackMeta, cfg: &Config, r: (FetchSession, ProviderAction)) -> bool {
    &&& r.0.phase is AwaitingSearch
    &&& r.0.title == meta.title
    &&& r.0.length_ms == meta.length_ms
    &&& r.0.retry_enabled == cfg.online_search_retry
    &&& r.0.max_retries == cfg.max_retries
    &&& r.0.attempts == 0
    &&& r.0.wf()
    &&& match r.1 {
        ProviderAction::Search { query } => query@ == search_query_spec(
            cfg.online_search_pattern,
            meta.title@,
            first_artist(meta.artists@),
        ),
        _ => false,
    }
}

impl NeteaseLyricProvider {
    /// Begin a lookup for `metadata`: the application performs the returned
    /// search action and feeds what it observed to `FetchSession::step`.
    pub fn get_lyric_by_metadata(&self, metadata: &TrackMeta, config: &Config) -> (r: (
        FetchSession,
        ProviderAction,
    ))
        ensures
            search_start(metadata, config, r),
    {
        let query: String = build_query(metadata, config);
        (
            FetchSession {
                phase: SessionPhase::AwaitingSearch,
                title: metadata.title.clone(),
                length_ms: metadata.length_ms,
                retry_enabled: config.online_search_retry,
                max_retries: config.max_retries,
                song_id: 0,
                attempts: 0,
            },
            ProviderAction::Search { query },
        )
    }
}

/// Extract the candidate list from a raw search response.  `None` when the
/// response is not JSON; a parsed response without a song array yields an
/// empty list; a song lacking an id, name, or duration is skipped.  The
/// JSON values are opaque to verification, so nothing is claimed of the
/// list here: the selection logic is verified for every candidate list it
/// is handed.
pub fn parse_search_response(response: &str) -> (r: Option<Vec<SearchCandidate>>) {
    let v: serde_json::Value = match json_parse(response) {
        Some(v) => v,
        None => {
            return None;
        },
    };
    let result: &serde_json::Value = match json_get(&v, "result") {
        Some(x) => x,
        None => {
            return Some(Vec::new());
        },
    };
    let songs_v: &serde_json::Value = match json_get(result, "songs") {
        Some(x) => x,
        None => {
            return Some(Vec::new());
        },
    };
    let arr: &Vec<serde_json::Value> = match json_as_array(songs_v) {
        Some(a) => a,
        None => {
            return Some(Vec::new());
        },
    };
    let mut out: Vec<SearchCandidate> = Vec::new();
    let mut i: usize = 0;
    while i < arr.len()
        invariant
            i <= arr@.len(),
        decreases arr@.len() - i,
    {
        let song: &serde_json::Value = &arr[i];
        let id_opt: Option<u64> = match json_get(song, "id") {
            Some(x) => json_as_u64(x),
            None => None,
        };
        let dur_opt: Option<u64> = match json_get(song, "duration") {
            Some(x) => json_as_u64(x),
            None => None,
        };
        let name_opt: Option<&str> = match json_get(song, "name") {
            Some(x) => json_as_str(x),
            None => None,
        };
        match (id_opt, dur_opt, name_opt) {
            (Some(id), Some(d), Some(nm)) => {
                out.push(SearchCandidate { id, name: String::from_str(nm), duration_ms: d });
            },
            _ => {
            },
        }
        i = i + 1;
    }
    Some(out)
}

} // verus!
