//! The provider registry: a closed set of named provider variants behind
//! one dispatch point.  Callers select a provider by name and use the
//! uniform `get_lyric` / `is_available` operations.

pub mod netease;
pub mod netease_trackid;

use vstd::prelude::*;

use crate::fetcher::{Config, FetchSession, ProviderAction, TrackMeta};
use crate::lyric_providers::netease::{NeteaseLyricProvider, search_start};
use crate::lyric_providers::netease_trackid::{
    music_id_spec,
    trackid_start,
    NeteaseTrackIDLyricProvider,
};
use crate::text::str_eq;

verus! {

/// The closed set of lyric providers.  Adding a provider means adding one
/// variant and one registry entry.
pub enum LyricProvider {
    Netease(NeteaseLyricProvider),
    NeteaseTrackID(NeteaseTrackIDLyricProvider),
}

/// Availability of a provider for a track.  The catalog search provider is
/// always available — the real determination happens at fetch time — while
/// the trackid provider needs a numeric suffix on the track identifier.
pub open spec fn available_spec(p: &LyricProvider, meta: &TrackMeta) -> bool {
    match p {
        LyricProvider::Netease(_) => true,
        LyricProvider::NeteaseTrackID(_) => music_id_spec(meta) is Some,
    }
}

impl LyricProvider {
    /// Begin a lookup with this provider.  The locator argument is kept for
    /// provider variants keyed on a direct content reference; the variants
    /// here work from track metadata.
    pub fn get_lyric(&self, _music_url: &str, metadata: &TrackMeta, config: &Config) -> (r: (
        FetchSession,
        ProviderAction,
    ))
        ensures
            match self {
                LyricProvider::Netease(_) => search_start(metadata, config, r),
                LyricProvider::NeteaseTrackID(_) => trackid_start(metadata, config, r),
            },
    {
        match self {
            LyricProvider::Netease(p) => p.get_lyric_by_metadata(metadata, config),
            LyricProvider::NeteaseTrackID(p) => p.get_lyric_by_metadata(metadata, config),
        }
    }

    /// Cheap, synchronous, side-effect-free availability check.
    pub fn is_available(&self, _music_url: &str, metadata: &TrackMeta) -> (r: bool)
        ensures
            r == available_spec(self, metadata),
    {
        match self {
            LyricProvider::Netease(_) => true,
            LyricProvider::NeteaseTrackID(p) => p.is_available_by_metadata(metadata),
        }
    }
}

/// Availability is a pure predicate of its inputs: two checks with
/// identical inputs and no intervening state change answer alike.
pub proof fn lemma_is_available_idempotent(
    p: &LyricProvider,
    meta: &TrackMeta,
    r1: bool,
    r2: bool,
)
    requires
        r1 == available_spec(p, meta),
        r2 == available_spec(p, meta),
    ensures
        r1 == r2,
{
}

/// Look a provider up by its registry name.
pub fn provider_by_name(name: &str) -> (r: Option<LyricProvider>)
    ensures
        name@ == "netease"@ ==> r == Some(LyricProvider::Netease((NeteaseLyricProvider {  }))),
        name@ == "netease_trackid"@ ==> r == Some(
            LyricProvider::NeteaseTrackID((NeteaseTrackIDLyricProvider {  })),
        ),
        name@ != "netease"@ && name@ != "netease_trackid"@ ==> r is None,
{
    proof {
        reveal_strlit("netease");
        reveal_strlit("netease_trackid");
        assert("netease"@.len() != "netease_trackid"@.len());
    }
    if str_eq(name, "netease") {
        Some(LyricProvider::Netease(NeteaseLyricProvider {  }))
    } else if str_eq(name, "netease_trackid") {
        Some(LyricProvider::NeteaseTrackID(NeteaseTrackIDLyricProvider {  }))
    } else {
        None
    }
}

} // verus!
