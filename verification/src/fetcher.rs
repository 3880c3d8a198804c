//! One lyric lookup as a state machine: search the catalog, pick the first
//! matching candidate, then fetch the lyric text under a bounded retry
//! budget.  The embedding application performs each requested action
//! (a network call) and hands the outcome back to `step`.

use vstd::prelude::*;

use crate::json::{json_as_str, json_get, json_parse};
use crate::lyric_parser::{LyricLine, is_merged, parse_netease_lyrics};
use crate::text::{candidate_name_matches, ends_with, split_lines, str_ends_with, title_matches};

verus! {

/// Read-only provider configuration snapshot, shared by every lookup.
pub struct Config {
    /// Request timeout in seconds, consumed by the network layer.
    pub online_search_timeout: u64,
    /// Query pattern: `0` searches title and first artist, `1` title only;
    /// any other value searches the empty string.
    pub online_search_pattern: u64,
    /// Whether failed lyric fetches are attempted at all.
    pub online_search_retry: bool,
    /// Upper bound on lyric fetch attempts in one lookup.
    pub max_retries: u64,
}

/// Track metadata as the media session supplies it, as plain values.
pub struct TrackMeta {
    pub title: String,
    pub artists: Vec<String>,
    /// Track duration in milliseconds; zero when the player reports none.
    pub length_ms: u64,
    /// Player-assigned track identifier, which may end in a numeric id
    /// after the last `/`.
    pub track_id: Option<String>,
}

/// One catalog search result.
pub struct SearchCandidate {
    pub id: u64,
    pub name: String,
    pub duration_ms: u64,
}

/// What one lookup produced: the timed lines, whether a usable lyric was
/// found, and whether failing was an error (as opposed to a track that
/// simply has no lyrics).
pub struct LyricsOutcome {
    pub lines: Vec<LyricLine>,
    pub found: bool,
    pub is_error: bool,
}

impl LyricsOutcome {
    /// Model invariant: a found model carries at least one line.
    pub open spec fn wf(self) -> bool {
        self.found ==> self.lines@.len() > 0
    }
}

/// Duration tolerance: the candidate is accepted only when subtracting its
/// duration from the track's does not underflow and the difference stays
/// under six seconds.
pub open spec fn duration_ok(track_ms: u64, cand_ms: u64) -> bool {
    track_ms >= cand_ms && track_ms - cand_ms < 6000
}

/// An accepted candidate diverges from the track duration by less than six
/// seconds; a difference of exactly six seconds is rejected.
pub proof fn lemma_duration_tolerance(track_ms: u64, cand_ms: u64)
    ensures
        duration_ok(track_ms, cand_ms) ==> (if track_ms >= cand_ms {
            track_ms - cand_ms
        } else {
            cand_ms - track_ms
        }) < 6000,
        track_ms >= cand_ms && track_ms - cand_ms == 6000 ==> !duration_ok(track_ms, cand_ms),
{
}

/// Both acceptance predicates: case-insensitive title prefix and duration
/// tolerance.
pub open spec fn cand_ok(c: SearchCandidate, title: Seq<char>, track_ms: u64) -> bool {
    title_matches(c.name@, title) && duration_ok(track_ms, c.duration_ms)
}

pub open spec fn select_from(
    cands: Seq<SearchCandidate>,
    title: Seq<char>,
    track_ms: u64,
    i: int,
) -> Option<int>
    decreases cands.len() - i,
{
    if i < 0 || i >= cands.len() {
        None
    } else if cand_ok(cands[i], title, track_ms) {
        Some(i)
    } else {
        select_from(cands, title, track_ms, i + 1)
    }
}

/// Index of the first candidate satisfying both predicates, in response
/// order: first match wins, not best match.
pub open spec fn select_spec(cands: Seq<SearchCandidate>, title: Seq<char>, track_ms: u64) -> Option<
    int,
> {
    select_from(cands, title, track_ms, 0)
}

/// Pick the first acceptable candidate.
pub fn select_candidate(cands: &Vec<SearchCandidate>, title: &str, track_ms: u64) -> (r: Option<
    usize,
>)
    ensures
        match r {
            Some(i) => i < cands@.len() && select_spec(cands@, title@, track_ms) == Some(i as int),
            None => select_spec(cands@, title@, track_ms) is None,
        },
{
    let mut i: usize = 0;
    while i < cands.len()
        invariant
            i <= cands@.len(),
            select_spec(cands@, title@, track_ms) == select_from(cands@, title@, track_ms, i as int),
        decreases cands@.len() - i,
    {
        let name_ok: bool = candidate_name_matches(cands[i].name.as_str(), title);
        let dur_ok: bool = track_ms >= cands[i].duration_ms && track_ms - cands[i].duration_ms
            < 6000;
        if name_ok && dur_ok {
            return Some(i);
        }
        i = i + 1;
    }
    None
}

/// The catalog's sentinel line for an instrumental track.
pub open spec fn instrumental_marker() -> Seq<char> {
    "纯音乐，请欣赏"@
}

/// A primary line set that means "no lyrics exist": empty, or one line
/// ending in the instrumental marker.
pub open spec fn no_lyrics_input(lines: Seq<Seq<char>>) -> bool {
    lines.len() == 0 || (lines.len() == 1 && ends_with(lines[0], instrumental_marker()))
}

fn is_no_lyrics(lines: &Vec<String>) -> (r: bool)
    ensures
        r == no_lyrics_input(lines.deep_view()),
{
    if lines.len() == 0 {
        proof {
            assert(lines.deep_view().len() == 0);
        }
        return true;
    }
    if lines.len() == 1 {
        let r: bool = str_ends_with(lines[0].as_str(), "纯音乐，请欣赏");
        proof {
            assert(lines.deep_view()[0] == lines@[0]@);
            assert(lines.deep_view().len() == 1);
        }
        return r;
    }
    false
}

/// Extract the primary and translated line sets from a raw lyric response:
/// the `lrc.lyric` and `tlyric.lyric` text fields, each split on newlines.
/// `None` when the response is not JSON or carries no primary lyric text; a
/// missing translation gives an empty translated set.  The JSON values are
/// opaque to verification; the line splitting itself is exact
/// (`split_lines`), and the session logic is verified for every payload.
pub fn parse_lyric_response(response: &str) -> (r: Option<(Vec<String>, Vec<String>)>) {
    let v: serde_json::Value = match json_parse(response) {
        Some(v) => v,
        None => {
            return None;
        },
    };
    let lrc_text: &str = match json_get(&v, "lrc") {
        Some(l) => match json_get(l, "lyric") {
            Some(t) => match json_as_str(t) {
                Some(s) => s,
                None => {
                    return None;
                },
            },
            None => {
                return None;
            },
        },
        None => {
            return None;
        },
    };
    let lyric: Vec<String> = split_lines(lrc_text);
    let tlyric: Vec<String> = match json_get(&v, "tlyric") {
        Some(l) => match json_get(l, "lyric") {
            Some(t) => match json_as_str(t) {
                Some(s) => split_lines(s),
                None => Vec::new(),
            },
            None => Vec::new(),
        },
        None => Vec::new(),
    };
    Some((lyric, tlyric))
}

/// Where a lookup stands: waiting on the catalog search, waiting on a lyric
/// fetch, or done.
pub enum SessionPhase {
    AwaitingSearch,
    AwaitingLyric,
    Finished,
}

/// The state of one lookup.  `attempts` counts the lyric fetches issued so
/// far in this session.
pub struct FetchSession {
    pub phase: SessionPhase,
    pub title: String,
    pub length_ms: u64,
    pub retry_enabled: bool,
    pub max_retries: u64,
    pub song_id: u64,
    pub attempts: u64,
}

/// What the application must do next on behalf of the session.
pub enum ProviderAction {
    /// Issue one catalog search for `query`.
    Search { query: String },
    /// Issue one lyric fetch for the resolved catalog id.
    FetchLyric { song_id: u64 },
    /// The lookup is over.
    Finish { outcome: LyricsOutcome },
}

/// What the application observed for the action it performed.  `None`
/// stands for a failed request (or, for a search, an unparsable response).
pub enum ProviderEvent {
    SearchDone { candidates: Option<Vec<SearchCandidate>> },
    LyricDone { payload: Option<(Vec<String>, Vec<String>)> },
}

/// The lookup failed: nothing found, and the failure is an error.
pub open spec fn error_outcome(o: LyricsOutcome) -> bool {
    o.lines@.len() == 0 && !o.found && o.is_error
}

/// The catalog definitively has no lyrics: nothing found, but no error.
pub open spec fn no_lyrics_outcome(o: LyricsOutcome) -> bool {
    o.lines@.len() == 0 && !o.found && !o.is_error
}

/// The session ended with an error outcome.
pub open spec fn finished_error(s: FetchSession, a: ProviderAction) -> bool {
    &&& s.phase is Finished
    &&& match a {
        ProviderAction::Finish { outcome } => error_outcome(outcome),
        _ => false,
    }
}

impl FetchSession {
    /// Session invariant: issued fetches never exceed the configured
    /// maximum; with retries disabled no fetch is ever issued; while a
    /// fetch is outstanding at least one has been issued.
    pub open spec fn wf(self) -> bool {
        &&& self.attempts <= self.max_retries
        &&& (!self.retry_enabled ==> self.attempts == 0)
        &&& (self.phase is AwaitingSearch ==> self.attempts == 0)
        &&& (self.phase is AwaitingLyric ==> self.retry_enabled && 1 <= self.attempts)
    }
}

/// The retry budget is never exceeded: in every well-formed session state
/// the fetches issued stay within `max_retries`, and none is issued when
/// retries are disabled.
pub proof fn lemma_retry_bound(s: FetchSession)
    requires
        s.wf(),
    ensures
        s.attempts <= s.max_retries,
        !s.retry_enabled ==> s.attempts == 0,
{
}

fn finish_error(s: FetchSession) -> (r: (FetchSession, ProviderAction))
    ensures
        finished_error(r.0, r.1),
        r.0 == (FetchSession { phase: SessionPhase::Finished, ..s }),
        s.wf() ==> r.0.wf(),
{
    (
        FetchSession { phase: SessionPhase::Finished, ..s },
        ProviderAction::Finish {
            outcome: LyricsOutcome { lines: Vec::new(), found: false, is_error: true },
        },
    )
}

impl FetchSession {
    /// Advance the lookup by one observed event.  An event that does not
    /// answer the pending action ends the session with an error.
    pub fn step(self, event: ProviderEvent) -> (r: (FetchSession, ProviderAction))
        ensures
            r.0.max_retries == self.max_retries,
            r.0.retry_enabled == self.retry_enabled,
            self.wf() ==> r.0.wf(),
            (match r.1 {
                ProviderAction::Finish { outcome } => outcome.wf(),
                _ => true,
            }),
            (match (self.phase, event) {
                (SessionPhase::AwaitingSearch, ProviderEvent::SearchDone { candidates }) => match candidates {
                    Option::None => finished_error(r.0, r.1),
                    Option::Some(cands) => match select_spec(cands@, self.title@, self.length_ms) {
                        Option::None => finished_error(r.0, r.1),
                        Option::Some(i) => if self.retry_enabled && self.max_retries > 0 {
                            &&& r.0.phase is AwaitingLyric
                            &&& r.0.song_id == cands@[i].id
                            &&& r.0.attempts == 1
                            &&& r.1 == (ProviderAction::FetchLyric { song_id: cands@[i].id })
                        } else {
                            finished_error(r.0, r.1)
                        },
                    },
                },
                (SessionPhase::AwaitingLyric, ProviderEvent::LyricDone { payload }) => match payload {
                    Option::None => if self.attempts < self.max_retries {
                        &&& r.0.phase is AwaitingLyric
                        &&& r.0.song_id == self.song_id
                        &&& r.0.attempts == self.attempts + 1
                        &&& r.1 == (ProviderAction::FetchLyric { song_id: self.song_id })
                    } else {
                        finished_error(r.0, r.1)
                    },
                    Option::Some(pair) => {
                        &&& r.0.phase is Finished
                        &&& match r.1 {
                            ProviderAction::Finish { outcome } => if no_lyrics_input(
                                pair.0.deep_view(),
                            ) {
                                no_lyrics_outcome(outcome)
                            } else {
                                &&& is_merged(
                                    outcome.lines@,
                                    pair.0.deep_view(),
                                    pair.1.deep_view(),
                                )
                                &&& outcome.found == (outcome.lines@.len() > 0)
                                &&& !outcome.is_error
                            },
                            _ => false,
                        }
                    },
                },
                _ => finished_error(r.0, r.1),
            }),
    {
        match event {
            ProviderEvent::SearchDone { candidates } => {
                match self.phase {
                    SessionPhase::AwaitingSearch => {
                        match candidates {
                            Option::None => finish_error(self),
                            Option::Some(cands) => {
                                let sel: Option<usize> = select_candidate(
                                    &cands,
                                    self.title.as_str(),
                                    self.length_ms,
                                );
                                match sel {
                                    Option::None => finish_error(self),
                                    Option::Some(i) => {
                                        if self.retry_enabled && self.max_retries > 0 {
                                            let id: u64 = cands[i].id;
                                            (
                                                FetchSession {
                                                    phase: SessionPhase::AwaitingLyric,
                                                    song_id: id,
                                                    attempts: 1,
                                                    ..self
                                                },
                                                ProviderAction::FetchLyric { song_id: id },
                                            )
                                        } else {
                                            finish_error(self)
                                        }
                                    },
                                }
                            },
                        }
                    },
                    _ => finish_error(self),
                }
            },
            ProviderEvent::LyricDone { payload } => {
                match self.phase {
                    SessionPhase::AwaitingLyric => {
                        match payload {
                            Option::None => {
                                if self.attempts < self.max_retries {
                                    let id: u64 = self.song_id;
                                    let next: u64 = self.attempts + 1;
                                    (
                                        FetchSession {
                                            phase: SessionPhase::AwaitingLyric,
                                            attempts: next,
                                            ..self
                                        },
                                        ProviderAction::FetchLyric { song_id: id },
                                    )
                                } else {
                                    finish_error(self)
                                }
                            },
                            Option::Some(pair) => {
                                let (ly, tl) = pair;
                                if is_no_lyrics(&ly) {
                                    (
                                        FetchSession { phase: SessionPhase::Finished, ..self },
                                        ProviderAction::Finish {
                                            outcome: LyricsOutcome {
                                                lines: Vec::new(),
                                                found: false,
                                                is_error: false,
                                            },
                                        },
                                    )
                                } else {
                                    let lines: Vec<LyricLine> = parse_netease_lyrics(ly, tl);
                                    let found: bool = lines.len() > 0;
                                    (
                                        FetchSession { phase: SessionPhase::Finished, ..self },
                                        ProviderAction::Finish {
                                            outcome: LyricsOutcome {
                                                lines,
                                                found,
                                                is_error: false,
                                            },
                                        },
                                    )
                                }
                            },
                        }
                    },
                    _ => finish_error(self),
                }
            },
        }
    }
}

} // verus!
