//! Video metadata types and the facade's option and result records.
use vstd::prelude::*;
use vstd::string::StringExecFns;

use crate::chars::has_prefix;
use crate::client::YtClient;
use crate::cookies::DomainCookies;
use crate::err::TydleError;
use crate::jsonx::JsonVal;
use crate::streams::YtStream;

verus! {

/// A channel reference: a validated `UC…` id and an optional name.
#[derive(Debug)]
pub struct YtChannel {
    id: String,
    name: Option<String>,
}

/// Whether `s` is a well-formed channel id: 24 characters starting `UC`.
pub open spec fn spec_valid_channel_id(s: Seq<char>) -> bool {
    s.len() == 24 && has_prefix(s, "UC"@)
}

impl YtChannel {
    /// The id's text.
    pub closed spec fn spec_id(&self) -> Seq<char> {
        self.id@
    }

    /// The optional display name's text.
    pub closed spec fn spec_name(&self) -> Option<Seq<char>> {
        self.name.deep_view()
    }

    /// Validates the id and wraps it; fails exactly on malformed ids.
    pub fn new(id: &str, name: Option<String>) -> (r: Result<YtChannel, TydleError>)
        ensures
            r is Ok <==> spec_valid_channel_id(id@),
            (r matches Ok(c) ==> c.spec_id() == id@ && c.spec_name() == name.deep_view()),
            (r matches Err(e) ==> e == TydleError::InvalidInput),
    {
        let n = id.unicode_len();
        if n != 24 {
            proof {
                reveal_strlit("UC");
            }
            return Err(TydleError::InvalidInput);
        }
        proof {
            reveal_strlit("UC");
        }
        if crate::chars::chars_match_at(crate::chars::str_chars(id).as_slice(), "UC", 0) {
            proof {
                assert(id@.subrange(0, 2) == id@.take(2));
            }
            Ok(YtChannel { id: String::from_str(id), name })
        } else {
            proof {
                assert(id@.subrange(0, 2) == id@.take(2));
            }
            Err(TydleError::InvalidInput)
        }
    }

    /// The channel id.
    pub fn get_id(&self) -> (r: &str)
        ensures
            r@ == self.spec_id(),
    {
        self.id.as_str()
    }

    /// The channel's absolute URL.
    pub fn get_url(&self) -> (r: String)
        ensures
            r@ == "https://www.youtube.com/channel/"@ + self.spec_id(),
    {
        let mut out = String::from_str("https://www.youtube.com/channel/");
        out.append(self.id.as_str());
        out
    }
}

/// What kind of media a video is.
#[derive(Debug, Clone, Copy, PartialEq, Eq, Structural)]
pub enum YtMediaType {
    LiveStream,
    Short,
    Video,
}

/// The age restriction of a video.
#[derive(Debug, Clone, Copy, PartialEq, Eq, Structural)]
pub enum YtAgeLimit {
    Adult,
    Unrestricted,
}

/// One thumbnail of a video.
#[derive(Debug)]
pub struct YtThumbnail {
    pub url: String,
    pub height: Option<u64>,
    pub width: Option<u64>,
}

/// The general metadata of a video.
#[derive(Debug)]
pub struct YtVideoInfo {
    pub title: String,
    pub description: String,
    /// Rounded-off duration of the video in seconds.
    pub duration: u64,
    pub view_count: u64,
    pub channel: YtChannel,
    pub keywords: Vec<String>,
    pub thumbnails: Vec<YtThumbnail>,
    pub media_type: YtMediaType,
    pub age_limit: YtAgeLimit,
}

/// The options a facade is built with.
#[derive(Debug)]
pub struct TydleOptions {
    /// Cookies of an authenticated account.
    pub auth_cookies: DomainCookies,
    /// Fetch over plain HTTP instead of HTTPS.
    pub prefer_insecure: bool,
    /// The address sent as `X-Forwarded-For` when set.
    pub source_address: String,
}

impl TydleOptions {
    /// The neutral options: no cookies, secure transport, no source
    /// address.
    pub fn new() -> (r: Self)
        ensures
            r.auth_cookies@.len() == 0,
            !r.prefer_insecure,
            r.source_address@.len() == 0,
    {
        TydleOptions {
            auth_cookies: DomainCookies::empty(),
            prefer_insecure: false,
            source_address: String::new(),
        }
    }
}

/// The streams of one extraction together with the player URL.
#[derive(Debug)]
pub struct YtStreamResponse {
    pub player_url: String,
    pub streams: Vec<YtStream>,
}

impl YtStreamResponse {
    pub fn new(player_url: String, streams: Vec<YtStream>) -> (r: Self)
        ensures
            r.player_url@ == player_url@,
            r.streams == streams,
    {
        YtStreamResponse { player_url, streams }
    }
}

/// The raw extraction result: the accepted player responses with their
/// producing clients, and the player URL.
#[derive(Debug)]
pub struct YtManifest {
    pub extracted_manifest: Vec<(YtClient, JsonVal)>,
    pub player_url: String,
}

impl YtManifest {
    pub fn new(extracted_manifest: Vec<(YtClient, JsonVal)>, player_url: String) -> (r: Self)
        ensures
            r.extracted_manifest == extracted_manifest,
            r.player_url@ == player_url@,
    {
        YtManifest { extracted_manifest, player_url }
    }
}

} // verus!
