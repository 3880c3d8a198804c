//! Tests for candidate selection, the lookup session state machine, the
//! provider registry, and the trusted response extraction.

use lyric_fetch::fetcher::{
    parse_lyric_response, select_candidate, Config, FetchSession, ProviderAction, ProviderEvent,
    SearchCandidate, SessionPhase, TrackMeta,
};
use lyric_fetch::lyric_providers::netease::{parse_search_response, NeteaseLyricProvider};
use lyric_fetch::lyric_providers::netease_trackid::NeteaseTrackIDLyricProvider;
use lyric_fetch::lyric_providers::{provider_by_name, LyricProvider};

fn config(retry: bool, max_retries: u64, pattern: u64) -> Config {
    Config {
        online_search_timeout: 5,
        online_search_pattern: pattern,
        online_search_retry: retry,
        max_retries,
    }
}

fn meta(title: &str, artist: &str, length_ms: u64, track_id: Option<&str>) -> TrackMeta {
    TrackMeta {
        title: title.to_string(),
        artists: vec![artist.to_string()],
        length_ms,
        track_id: track_id.map(|s| s.to_string()),
    }
}

fn cand(id: u64, name: &str, duration_ms: u64) -> SearchCandidate {
    SearchCandidate { id, name: name.to_string(), duration_ms }
}

#[test]
fn duration_boundary() {
    // 5.999 s shorter than the track: accepted.
    let cands = vec![cand(1, "song", 194_001)];
    assert_eq!(select_candidate(&cands, "song", 200_000), Some(0));
    // exactly 6.000 s difference: rejected.
    let cands = vec![cand(1, "song", 194_000)];
    assert_eq!(select_candidate(&cands, "song", 200_000), None);
    // candidate longer than the track: rejected.
    let cands = vec![cand(1, "song", 200_001)];
    assert_eq!(select_candidate(&cands, "song", 200_000), None);
    // equal durations: accepted.
    let cands = vec![cand(1, "song", 200_000)];
    assert_eq!(select_candidate(&cands, "song", 200_000), Some(0));
}

#[test]
fn first_match_wins() {
    let cands = vec![
        cand(1, "other", 200_000),
        cand(2, "song (cover)", 199_000),
        cand(3, "song", 200_000),
    ];
    assert_eq!(select_candidate(&cands, "song", 200_000), Some(1));
}

#[test]
fn retry_budget_exhausted() {
    let cfg = config(true, 3, 1);
    let m = meta("t", "a", 0, Some("/org/mpd/track/123"));
    let p = NeteaseTrackIDLyricProvider {};
    let (mut session, mut action) = p.get_lyric_by_metadata(&m, &cfg);
    let mut fetches: u64 = 0;
    loop {
        match action {
            ProviderAction::FetchLyric { song_id } => {
                assert_eq!(song_id, 123);
                fetches += 1;
                let r = session.step(ProviderEvent::LyricDone { payload: None });
                session = r.0;
                action = r.1;
            }
            ProviderAction::Finish { outcome } => {
                assert!(!outcome.found);
                assert!(outcome.is_error);
                assert!(outcome.lines.is_empty());
                break;
            }
            ProviderAction::Search { .. } => panic!("no search in a trackid lookup"),
        }
    }
    assert_eq!(fetches, 3);
}

#[test]
fn retry_disabled_no_fetch() {
    let cfg = config(false, 5, 1);
    let m = meta("t", "a", 0, Some("/org/mpd/track/123"));
    let p = NeteaseTrackIDLyricProvider {};
    let (_, action) = p.get_lyric_by_metadata(&m, &cfg);
    match action {
        ProviderAction::Finish { outcome } => {
            assert!(!outcome.found);
            assert!(outcome.is_error);
        }
        _ => panic!("expected an immediate error"),
    }
}

#[test]
fn instrumental_marker_no_error() {
    let session = FetchSession {
        phase: SessionPhase::AwaitingLyric,
        title: String::new(),
        length_ms: 0,
        retry_enabled: true,
        max_retries: 3,
        song_id: 9,
        attempts: 1,
    };
    let lines = vec!["[00:00.000]纯音乐，请欣赏".to_string()];
    let (_, action) = session.step(ProviderEvent::LyricDone { payload: Some((lines, vec![])) });
    match action {
        ProviderAction::Finish { outcome } => {
            assert!(!outcome.found);
            assert!(!outcome.is_error);
            assert!(outcome.lines.is_empty());
        }
        _ => panic!("expected the lookup to finish"),
    }
}

#[test]
fn empty_lyric_set_no_error() {
    let session = FetchSession {
        phase: SessionPhase::AwaitingLyric,
        title: String::new(),
        length_ms: 0,
        retry_enabled: true,
        max_retries: 1,
        song_id: 9,
        attempts: 1,
    };
    let (_, action) = session.step(ProviderEvent::LyricDone { payload: Some((vec![], vec![])) });
    match action {
        ProviderAction::Finish { outcome } => {
            assert!(!outcome.found);
            assert!(!outcome.is_error);
        }
        _ => panic!("expected the lookup to finish"),
    }
}

#[test]
fn end_to_end_search_success() {
    let cfg = config(true, 2, 0);
    let m = meta("Blue", "X", 200_000, None);
    let p = NeteaseLyricProvider {};
    let (session, action) = p.get_lyric_by_metadata(&m, &cfg);
    let query = match action {
        ProviderAction::Search { query } => query,
        _ => panic!("expected a search first"),
    };
    assert_eq!(query, "Blue X");
    let cands = vec![cand(7, "blue", 196_000)];
    let (session, action) = session.step(ProviderEvent::SearchDone { candidates: Some(cands) });
    match &action {
        ProviderAction::FetchLyric { song_id } => assert_eq!(*song_id, 7),
        _ => panic!("expected a lyric fetch"),
    }
    let lyric = vec!["[00:10.00]hello".to_string(), "[00:12.00]again".to_string()];
    let (_, action) = session.step(ProviderEvent::LyricDone { payload: Some((lyric, vec![])) });
    match action {
        ProviderAction::Finish { outcome } => {
            assert!(outcome.found);
            assert!(!outcome.is_error);
            assert_eq!(outcome.lines.len(), 2);
            assert_eq!(outcome.lines[0].time_ms, 10_000);
            assert_eq!(outcome.lines[0].text, "hello");
            assert_eq!(outcome.lines[1].time_ms, 12_000);
        }
        _ => panic!("expected the lookup to finish"),
    }
}

#[test]
fn search_zero_candidates_error() {
    let cfg = config(true, 2, 1);
    let m = meta("Blue", "X", 200_000, None);
    let p = NeteaseLyricProvider {};
    let (session, _) = p.get_lyric_by_metadata(&m, &cfg);
    let (_, action) = session.step(ProviderEvent::SearchDone { candidates: Some(vec![]) });
    match action {
        ProviderAction::Finish { outcome } => {
            assert!(!outcome.found);
            assert!(outcome.is_error);
            assert!(outcome.lines.is_empty());
        }
        _ => panic!("expected the lookup to finish"),
    }
}

#[test]
fn search_request_failure_error() {
    let cfg = config(true, 2, 1);
    let m = meta("Blue", "X", 200_000, None);
    let p = NeteaseLyricProvider {};
    let (session, _) = p.get_lyric_by_metadata(&m, &cfg);
    let (_, action) = session.step(ProviderEvent::SearchDone { candidates: None });
    match action {
        ProviderAction::Finish { outcome } => {
            assert!(!outcome.found);
            assert!(outcome.is_error);
        }
        _ => panic!("expected the lookup to finish"),
    }
}

#[test]
fn query_patterns() {
    let m = meta("Blue", "X", 0, None);
    let p = NeteaseLyricProvider {};
    let (_, action) = p.get_lyric_by_metadata(&m, &config(true, 1, 1));
    match action {
        ProviderAction::Search { query } => assert_eq!(query, "Blue"),
        _ => panic!("expected a search"),
    }
    let (_, action) = p.get_lyric_by_metadata(&m, &config(true, 1, 9));
    match action {
        ProviderAction::Search { query } => assert_eq!(query, ""),
        _ => panic!("expected a search"),
    }
}

#[test]
fn is_available_idempotent() {
    let p = provider_by_name("netease_trackid").unwrap();
    let m = meta("t", "a", 0, Some("/org/mpd/track/77"));
    let r1 = p.is_available("", &m);
    let r2 = p.is_available("", &m);
    assert_eq!(r1, r2);
    assert!(r1);
    let bad = meta("t", "a", 0, Some("/org/mpd/track/none"));
    assert!(!p.is_available("", &bad));
    assert!(!p.is_available("", &meta("t", "a", 0, None)));
}

#[test]
fn netease_always_available() {
    let p = provider_by_name("netease").unwrap();
    assert!(p.is_available("", &meta("t", "a", 0, None)));
}

#[test]
fn registry_names() {
    assert!(matches!(provider_by_name("netease"), Some(LyricProvider::Netease(_))));
    assert!(matches!(
        provider_by_name("netease_trackid"),
        Some(LyricProvider::NeteaseTrackID(_))
    ));
    assert!(provider_by_name("file").is_none());
    assert!(provider_by_name("").is_none());
}

#[test]
fn search_response_extraction() {
    let body = r#"{"result":{"songs":[
        {"id":7,"name":"blue","duration":196000},
        {"name":"missing id","duration":1},
        {"id":8,"name":"red","duration":100}
    ]}}"#;
    let cands = parse_search_response(body).unwrap();
    assert_eq!(cands.len(), 2);
    assert_eq!(cands[0].id, 7);
    assert_eq!(cands[0].name, "blue");
    assert_eq!(cands[0].duration_ms, 196_000);
    assert_eq!(cands[1].id, 8);
    assert!(parse_search_response("not json").is_none());
    assert_eq!(parse_search_response("{}").unwrap().len(), 0);
    assert_eq!(parse_search_response(r#"{"result":{"songs":5}}"#).unwrap().len(), 0);
}

#[test]
fn lyric_response_extraction() {
    let body = r#"{"lrc":{"lyric":"[00:01.00]a\n[00:02.00]b"},"tlyric":{"lyric":"[00:01.00]A"}}"#;
    let (lyric, tlyric) = parse_lyric_response(body).unwrap();
    assert_eq!(lyric, vec!["[00:01.00]a".to_string(), "[00:02.00]b".to_string()]);
    assert_eq!(tlyric, vec!["[00:01.00]A".to_string()]);
    let body2 = r#"{"lrc":{"lyric":"[00:01.00]a"}}"#;
    let (lyric2, tlyric2) = parse_lyric_response(body2).unwrap();
    assert_eq!(lyric2.len(), 1);
    assert!(tlyric2.is_empty());
    assert!(parse_lyric_response("{}").is_none());
    assert!(parse_lyric_response("nope").is_none());
}

#[test]
fn dispatch_matches_variant() {
    let cfg = config(true, 1, 1);
    let m = meta("t", "a", 0, Some("/x/55"));
    let p = provider_by_name("netease_trackid").unwrap();
    let (_, action) = p.get_lyric("", &m, &cfg);
    match action {
        ProviderAction::FetchLyric { song_id } => assert_eq!(song_id, 55),
        _ => panic!("expected a fetch for the embedded id"),
    }
    let p2 = provider_by_name("netease").unwrap();
    let (_, action2) = p2.get_lyric("", &m, &cfg);
    assert!(matches!(action2, ProviderAction::Search { .. }));
}
