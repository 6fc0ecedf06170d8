//! The Innertube client registry: the closed set of impersonated clients,
//! their textual names, and their per-client profiles and token policies.
use vstd::prelude::*;

verus! {

broadcast use vstd::string::group_string_axioms;

/// The Innertube API endpoints this crate addresses.
#[derive(Debug, Clone, Copy, PartialEq, Eq, Structural)]
pub enum YtEndpoint {
    Browse,
    Player,
    Next,
}

pub open spec fn spec_endpoint_name(e: YtEndpoint) -> Seq<char> {
    match e {
        YtEndpoint::Browse => "browse"@,
        YtEndpoint::Player => "player"@,
        YtEndpoint::Next => "next"@,
    }
}

impl YtEndpoint {
    /// The path segment of the endpoint under `youtubei/v1/`.
    pub fn as_str(&self) -> (r: &'static str)
        ensures
            r@ == spec_endpoint_name(*self),
    {
        match self {
            YtEndpoint::Browse => "browse",
            YtEndpoint::Player => "player",
            YtEndpoint::Next => "next",
        }
    }
}

/// The impersonated client kinds.
#[derive(Debug, Clone, Copy, PartialEq, Eq, Hash, Structural)]
pub enum YtClient {
    Web,
    /// Safari UA returns pre-merged video+audio HLS formats.
    WebSafari,
    WebEmbedded,
    WebMusic,
    /// Requires sign-in for every video.
    WebCreator,
    Android,
    /// Does not require a PO token.
    AndroidSdkless,
    AndroidVr,
    IOS,
    MWeb,
    Tv,
    TvSimply,
    /// Requires sign-in; formerly an age-gate workaround for embeddable videos.
    TvEmbedded,
}

pub open spec fn spec_client_name(c: YtClient) -> Seq<char> {
    match c {
        YtClient::Web => "web"@,
        YtClient::WebSafari => "web_safari"@,
        YtClient::WebEmbedded => "web_embedded"@,
        YtClient::WebMusic => "web_music"@,
        YtClient::WebCreator => "web_creator"@,
        YtClient::Android => "android"@,
        YtClient::AndroidSdkless => "android_sdkless"@,
        YtClient::AndroidVr => "android_vr"@,
        YtClient::IOS => "ios"@,
        YtClient::MWeb => "mweb"@,
        YtClient::Tv => "tv"@,
        YtClient::TvSimply => "tv_simply"@,
        YtClient::TvEmbedded => "tv_embedded"@,
    }
}

/// The part of the name before the first `_`; the whole name when none.
pub open spec fn spec_client_base(c: YtClient) -> Seq<char> {
    match c {
        YtClient::Web => "web"@,
        YtClient::WebSafari => "web"@,
        YtClient::WebEmbedded => "web"@,
        YtClient::WebMusic => "web"@,
        YtClient::WebCreator => "web"@,
        YtClient::Android => "android"@,
        YtClient::AndroidSdkless => "android"@,
        YtClient::AndroidVr => "android"@,
        YtClient::IOS => "ios"@,
        YtClient::MWeb => "mweb"@,
        YtClient::Tv => "tv"@,
        YtClient::TvSimply => "tv"@,
        YtClient::TvEmbedded => "tv"@,
    }
}

/// The part of the name after the first `_`; empty when the name has none.
pub open spec fn spec_client_variant(c: YtClient) -> Seq<char> {
    match c {
        YtClient::Web => Seq::empty(),
        YtClient::WebSafari => "safari"@,
        YtClient::WebEmbedded => "embedded"@,
        YtClient::WebMusic => "music"@,
        YtClient::WebCreator => "creator"@,
        YtClient::Android => Seq::empty(),
        YtClient::AndroidSdkless => "sdkless"@,
        YtClient::AndroidVr => "vr"@,
        YtClient::IOS => Seq::empty(),
        YtClient::MWeb => Seq::empty(),
        YtClient::Tv => Seq::empty(),
        YtClient::TvSimply => "simply"@,
        YtClient::TvEmbedded => "embedded"@,
    }
}

pub open spec fn spec_client_from(s: Seq<char>) -> YtClient {
    if s == "web"@ {
        YtClient::Web
    } else if s == "web_safari"@ {
        YtClient::WebSafari
    } else if s == "web_embedded"@ {
        YtClient::WebEmbedded
    } else if s == "web_music"@ {
        YtClient::WebMusic
    } else if s == "web_creator"@ {
        YtClient::WebCreator
    } else if s == "android"@ {
        YtClient::Android
    } else if s == "android_sdkless"@ {
        YtClient::AndroidSdkless
    } else if s == "android_vr"@ {
        YtClient::AndroidVr
    } else if s == "ios"@ {
        YtClient::IOS
    } else if s == "mweb"@ {
        YtClient::MWeb
    } else if s == "tv"@ {
        YtClient::Tv
    } else if s == "tv_simply"@ {
        YtClient::TvSimply
    } else if s == "tv_embedded"@ {
        YtClient::TvEmbedded
    } else {
        YtClient::Web
    }
}

impl YtClient {
    /// The textual client name; unknown names fall back to `Web`.
    pub fn from_str(str_client: &str) -> (r: YtClient)
        ensures
            r == spec_client_from(str_client@),
    {
        if crate::chars::str_eq(str_client, "web") {
            YtClient::Web
        } else if crate::chars::str_eq(str_client, "web_safari") {
            YtClient::WebSafari
        } else if crate::chars::str_eq(str_client, "web_embedded") {
            YtClient::WebEmbedded
        } else if crate::chars::str_eq(str_client, "web_music") {
            YtClient::WebMusic
        } else if crate::chars::str_eq(str_client, "web_creator") {
            YtClient::WebCreator
        } else if crate::chars::str_eq(str_client, "android") {
            YtClient::Android
        } else if crate::chars::str_eq(str_client, "android_sdkless") {
            YtClient::AndroidSdkless
        } else if crate::chars::str_eq(str_client, "android_vr") {
            YtClient::AndroidVr
        } else if crate::chars::str_eq(str_client, "ios") {
            YtClient::IOS
        } else if crate::chars::str_eq(str_client, "mweb") {
            YtClient::MWeb
        } else if crate::chars::str_eq(str_client, "tv") {
            YtClient::Tv
        } else if crate::chars::str_eq(str_client, "tv_simply") {
            YtClient::TvSimply
        } else if crate::chars::str_eq(str_client, "tv_embedded") {
            YtClient::TvEmbedded
        } else {
            YtClient::Web
        }
    }

    pub fn as_str(&self) -> (r: &'static str)
        ensures
            r@ == spec_client_name(*self),
    {
        match self {
            YtClient::Web => "web",
            YtClient::WebSafari => "web_safari",
            YtClient::WebEmbedded => "web_embedded",
            YtClient::WebMusic => "web_music",
            YtClient::WebCreator => "web_creator",
            YtClient::Android => "android",
            YtClient::AndroidSdkless => "android_sdkless",
            YtClient::AndroidVr => "android_vr",
            YtClient::IOS => "ios",
            YtClient::MWeb => "mweb",
            YtClient::Tv => "tv",
            YtClient::TvSimply => "tv_simply",
            YtClient::TvEmbedded => "tv_embedded",
        }
    }

    /// The name after the first `_`; empty for a name without one.
    pub fn get_variant(&self) -> (r: &'static str)
        ensures
            r@ == spec_client_variant(*self),
    {
        let r = match self {
            YtClient::Web => "",
            YtClient::WebSafari => "safari",
            YtClient::WebEmbedded => "embedded",
            YtClient::WebMusic => "music",
            YtClient::WebCreator => "creator",
            YtClient::Android => "",
            YtClient::AndroidSdkless => "sdkless",
            YtClient::AndroidVr => "vr",
            YtClient::IOS => "",
            YtClient::MWeb => "",
            YtClient::Tv => "",
            YtClient::TvSimply => "simply",
            YtClient::TvEmbedded => "embedded",
        };
        proof {
            reveal_strlit("");
        }
        r
    }

    /// The name before the first `_`, or the whole name without one.
    pub fn get_base(&self) -> (r: &'static str)
        ensures
            r@ == spec_client_base(*self),
    {
        match self {
            YtClient::Web => "web",
            YtClient::WebSafari => "web",
            YtClient::WebEmbedded => "web",
            YtClient::WebMusic => "web",
            YtClient::WebCreator => "web",
            YtClient::Android => "android",
            YtClient::AndroidSdkless => "android",
            YtClient::AndroidVr => "android",
            YtClient::IOS => "ios",
            YtClient::MWeb => "mweb",
            YtClient::Tv => "tv",
            YtClient::TvSimply => "tv",
            YtClient::TvEmbedded => "tv",
        }
    }
}

/// The streaming protocols a GVS PO-token policy is keyed by.
#[derive(Debug, Clone, Copy, Hash, Eq, PartialEq, Structural)]
pub enum StreamingProtocol {
    Https,
    Dash,
    Hls,
}

pub open spec fn spec_protocol_name(p: StreamingProtocol) -> Seq<char> {
    match p {
        StreamingProtocol::Https => "https"@,
        StreamingProtocol::Dash => "dash"@,
        StreamingProtocol::Hls => "hls"@,
    }
}

impl StreamingProtocol {
    pub fn as_str(&self) -> (r: &'static str)
        ensures
            r@ == spec_protocol_name(*self),
    {
        match self {
            StreamingProtocol::Https => "https",
            StreamingProtocol::Dash => "dash",
            StreamingProtocol::Hls => "hls",
        }
    }
}

/// PO-token requirements for stream (GVS) requests under one protocol.
#[derive(Debug, Clone, Copy, PartialEq, Eq, Structural)]
pub struct GvsPoTokenPolicy {
    pub required: bool,
    /// Try to fetch a PO token even if it is not required.
    pub recommended: bool,
    pub not_required_for_premium: bool,
    pub not_required_with_player_token: bool,
}

impl GvsPoTokenPolicy {
    /// The all-permissive policy: nothing required, nothing recommended.
    pub fn default() -> (r: Self)
        ensures
            !r.required && !r.recommended && !r.not_required_for_premium
                && !r.not_required_with_player_token,
    {
        Self {
            required: false,
            recommended: false,
            not_required_for_premium: false,
            not_required_with_player_token: false,
        }
    }
}

/// One GVS policy per streaming protocol.
#[derive(Debug, Clone, Copy, PartialEq, Eq, Structural)]
pub struct GvsPoTokenPolicies {
    pub https: GvsPoTokenPolicy,
    pub dash: GvsPoTokenPolicy,
    pub hls: GvsPoTokenPolicy,
}

impl GvsPoTokenPolicies {
    /// The policy for one protocol.
    pub fn get(&self, p: StreamingProtocol) -> (r: GvsPoTokenPolicy)
        ensures
            p == StreamingProtocol::Https ==> r == self.https,
            p == StreamingProtocol::Dash ==> r == self.dash,
            p == StreamingProtocol::Hls ==> r == self.hls,
    {
        match p {
            StreamingProtocol::Https => self.https,
            StreamingProtocol::Dash => self.dash,
            StreamingProtocol::Hls => self.hls,
        }
    }
}

/// The default GVS policy table: permissive for every protocol.
pub fn create_default_gvs_po_token_policy() -> (r: GvsPoTokenPolicies)
    ensures
        r.https == GvsPoTokenPolicy::spec_none(),
        r.dash == GvsPoTokenPolicy::spec_none(),
        r.hls == GvsPoTokenPolicy::spec_none(),
{
    GvsPoTokenPolicies {
        https: GvsPoTokenPolicy::default(),
        dash: GvsPoTokenPolicy::default(),
        hls: GvsPoTokenPolicy::default(),
    }
}

impl GvsPoTokenPolicy {
    pub open spec fn spec_none() -> GvsPoTokenPolicy {
        GvsPoTokenPolicy {
            required: false,
            recommended: false,
            not_required_for_premium: false,
            not_required_with_player_token: false,
        }
    }
}

/// PO-token requirements for the player endpoint itself.
#[derive(Debug, Clone, Copy, PartialEq, Eq, Structural)]
pub struct PlayerPoTokenPolicy {
    pub required: bool,
    pub recommended: bool,
    pub not_required_for_premium: bool,
}

impl PlayerPoTokenPolicy {
    pub fn default() -> (r: Self)
        ensures
            !r.required && !r.recommended && !r.not_required_for_premium,
    {
        Self { required: false, recommended: false, not_required_for_premium: false }
    }
}

/// PO-token requirements for subtitle requests.
#[derive(Debug, Clone, Copy, PartialEq, Eq, Structural)]
pub struct SubsPoTokenPolicy {
    pub required: bool,
    pub recommended: bool,
    pub not_required_for_premium: bool,
}

impl SubsPoTokenPolicy {
    pub fn default() -> (r: Self)
        ensures
            !r.required && !r.recommended && !r.not_required_for_premium,
    {
        Self { required: false, recommended: false, not_required_for_premium: false }
    }
}

/// The three policy groups of a web client bundled together.
#[derive(Debug, Clone, Copy, PartialEq, Eq, Structural)]
pub struct WebPoTokenPolicy {
    pub gvs_po_token_policy: GvsPoTokenPolicies,
    pub player_po_token_policy: PlayerPoTokenPolicy,
    pub subs_po_token_policy: SubsPoTokenPolicy,
}

impl WebPoTokenPolicy {
    pub fn new(
        gvs_po_token_policy: GvsPoTokenPolicies,
        player_po_token_policy: PlayerPoTokenPolicy,
        subs_po_token_policy: SubsPoTokenPolicy,
    ) -> (r: Self)
        ensures
            r.gvs_po_token_policy == gvs_po_token_policy,
            r.player_po_token_policy == player_po_token_policy,
            r.subs_po_token_policy == subs_po_token_policy,
    {
        Self { gvs_po_token_policy, player_po_token_policy, subs_po_token_policy }
    }
}

/// The immutable per-client profile.
pub struct ClientProfile {
    /// `clientName` inside the Innertube context.
    pub context_client_name: &'static str,
    /// `clientVersion` inside the Innertube context.
    pub client_version: &'static str,
    /// `userAgent` inside the Innertube context, when the client fixes one.
    pub user_agent: Option<&'static str>,
    /// Extra context fields beyond name, version, user agent and locale,
    /// as (key, value) text pairs.
    pub extra_context: Vec<(&'static str, &'static str)>,
    pub innertube_host: &'static str,
    /// The small integer echoed as `X-YouTube-Client-Name`.
    pub innertube_context_client_name: i32,
    pub supports_cookies: bool,
    pub require_js_player: bool,
    pub require_auth: bool,
    pub authenticated_user_agent: Option<&'static str>,
    pub gvs_po_token_policy: GvsPoTokenPolicies,
    pub player_po_token_policy: PlayerPoTokenPolicy,
    pub subs_po_token_policy: SubsPoTokenPolicy,
    pub priority: i64,
}

pub open spec fn spec_supports_cookies(c: YtClient) -> bool {
    match c {
        YtClient::Web | YtClient::WebSafari | YtClient::WebEmbedded | YtClient::WebMusic
            | YtClient::WebCreator | YtClient::MWeb | YtClient::Tv | YtClient::TvEmbedded => true,
        _ => false,
    }
}

pub open spec fn spec_require_js_player(c: YtClient) -> bool {
    match c {
        YtClient::Android | YtClient::AndroidSdkless | YtClient::AndroidVr | YtClient::IOS
            => false,
        _ => true,
    }
}

pub open spec fn spec_require_auth(c: YtClient) -> bool {
    c == YtClient::WebCreator || c == YtClient::TvEmbedded
}

pub open spec fn spec_innertube_host(c: YtClient) -> Seq<char> {
    if c == YtClient::WebMusic {
        "music.youtube.com"@
    } else {
        "www.youtube.com"@
    }
}

/// Index of the client's base name in the fixed base-client order
/// `android, mweb, tv, web, ios`.
pub open spec fn spec_base_index(c: YtClient) -> int {
    match c {
        YtClient::Android | YtClient::AndroidSdkless | YtClient::AndroidVr => 0,
        YtClient::MWeb => 1,
        YtClient::Tv | YtClient::TvSimply | YtClient::TvEmbedded => 2,
        YtClient::Web | YtClient::WebSafari | YtClient::WebEmbedded | YtClient::WebMusic
            | YtClient::WebCreator => 3,
        YtClient::IOS => 4,
    }
}

/// Whether the client is an embedded-player variant.
pub open spec fn spec_is_embedded(c: YtClient) -> bool {
    c == YtClient::WebEmbedded || c == YtClient::TvEmbedded
}

/// The derived ordering weight of a client.
pub open spec fn spec_priority(c: YtClient) -> int {
    10 * spec_base_index(c) + (if spec_is_embedded(c) {
        -2
    } else {
        -3
    })
}

/// The `clientVersion` the profile table fixes for each client.
pub open spec fn spec_client_version(c: YtClient) -> Seq<char> {
    match c {
        YtClient::Web => "2.20250925.01.00"@,
        YtClient::WebSafari => "2.20250925.01.00"@,
        YtClient::WebEmbedded => "1.20250923.21.00"@,
        YtClient::WebMusic => "1.20250922.03.00"@,
        YtClient::WebCreator => "1.20250922.03.00"@,
        YtClient::Android => "20.10.38"@,
        YtClient::AndroidSdkless => "20.10.38"@,
        YtClient::AndroidVr => "1.65.10"@,
        YtClient::IOS => "20.10.4"@,
        YtClient::MWeb => "2.20250925.01.00"@,
        YtClient::Tv => "7.20250923.13.00"@,
        YtClient::TvSimply => "1.0"@,
        YtClient::TvEmbedded => "2.0"@,
    }
}

/// The small integer echoed as `X-YouTube-Client-Name` for each client.
pub open spec fn spec_innertube_client_number(c: YtClient) -> int {
    match c {
        YtClient::Web => 1,
        YtClient::WebSafari => 1,
        YtClient::WebEmbedded => 56,
        YtClient::WebMusic => 67,
        YtClient::WebCreator => 62,
        YtClient::Android => 3,
        YtClient::AndroidSdkless => 3,
        YtClient::AndroidVr => 28,
        YtClient::IOS => 5,
        YtClient::MWeb => 2,
        YtClient::Tv => 7,
        YtClient::TvSimply => 75,
        YtClient::TvEmbedded => 85,
    }
}

/// The `clientName` text the profile table fixes for each client.
pub open spec fn spec_context_client_name(c: YtClient) -> Seq<char> {
    match c {
        YtClient::Web => "WEB"@,
        YtClient::WebSafari => "WEB"@,
        YtClient::WebEmbedded => "WEB_EMBEDDED_PLAYER"@,
        YtClient::WebMusic => "WEB_REMIX"@,
        YtClient::WebCreator => "WEB_CREATOR"@,
        YtClient::Android => "ANDROID"@,
        YtClient::AndroidSdkless => "ANDROID"@,
        YtClient::AndroidVr => "ANDROID_VR"@,
        YtClient::IOS => "IOS"@,
        YtClient::MWeb => "MWEB"@,
        YtClient::Tv => "TVHTML5"@,
        YtClient::TvSimply => "TVHTML5_SIMPLY"@,
        YtClient::TvEmbedded => "TVHTML5_SIMPLY_EMBEDDED_PLAYER"@,
    }
}

/// The process-wide profile table; lookups are total over `YtClient`.
pub fn client_profile(c: YtClient) -> (r: ClientProfile)
    ensures
        r.supports_cookies == spec_supports_cookies(c),
        r.require_js_player == spec_require_js_player(c),
        r.require_auth == spec_require_auth(c),
        r.innertube_host@ == spec_innertube_host(c),
        r.client_version@ == spec_client_version(c),
        r.context_client_name@ == spec_context_client_name(c),
        r.innertube_context_client_name == spec_innertube_client_number(c),
        r.priority == spec_priority(c),
{
    let base_index: i64 = match c {
        YtClient::Android | YtClient::AndroidSdkless | YtClient::AndroidVr => 0,
        YtClient::MWeb => 1,
        YtClient::Tv | YtClient::TvSimply | YtClient::TvEmbedded => 2,
        YtClient::Web | YtClient::WebSafari | YtClient::WebEmbedded | YtClient::WebMusic
            | YtClient::WebCreator => 3,
        YtClient::IOS => 4,
    };
    let embedded = match c {
        YtClient::WebEmbedded | YtClient::TvEmbedded => true,
        _ => false,
    };
    let priority: i64 = 10 * base_index + (if embedded { -2 } else { -3 });
    let required_pot = GvsPoTokenPolicy {
        required: true,
        recommended: true,
        not_required_for_premium: true,
        not_required_with_player_token: false,
    };
    let web_gvs = GvsPoTokenPolicies {
        https: required_pot,
        dash: required_pot,
        hls: GvsPoTokenPolicy {
            required: false,
            recommended: true,
            not_required_for_premium: false,
            not_required_with_player_token: false,
        },
    };
    let android_pot = GvsPoTokenPolicy {
        required: true,
        recommended: true,
        not_required_for_premium: false,
        not_required_with_player_token: true,
    };
    match c {
        YtClient::Web => ClientProfile {
            context_client_name: "WEB",
            client_version: "2.20250925.01.00",
            user_agent: None,
            extra_context: Vec::new(),
            innertube_host: "www.youtube.com",
            innertube_context_client_name: 1,
            supports_cookies: true,
            require_js_player: true,
            require_auth: false,
            authenticated_user_agent: None,
            gvs_po_token_policy: web_gvs,
            player_po_token_policy: PlayerPoTokenPolicy::default(),
            subs_po_token_policy: SubsPoTokenPolicy::default(),
            priority,
        },
        YtClient::WebSafari => ClientProfile {
            context_client_name: "WEB",
            client_version: "2.20250925.01.00",
            user_agent: Some(
                "Mozilla/5.0 (Macintosh; Intel Mac OS X 10_15_7) AppleWebKit/605.1.15 (KHTML, like Gecko) Version/15.5 Safari/605.1.15,gzip(gfe)",
            ),
            extra_context: Vec::new(),
            innertube_host: "www.youtube.com",
            innertube_context_client_name: 1,
            supports_cookies: true,
            require_js_player: true,
            require_auth: false,
            authenticated_user_agent: None,
            gvs_po_token_policy: web_gvs,
            player_po_token_policy: PlayerPoTokenPolicy::default(),
            subs_po_token_policy: SubsPoTokenPolicy::default(),
            priority,
        },
        YtClient::WebEmbedded => ClientProfile {
            context_client_name: "WEB_EMBEDDED_PLAYER",
            client_version: "1.20250923.21.00",
            user_agent: None,
            extra_context: Vec::new(),
            innertube_host: "www.youtube.com",
            innertube_context_client_name: 56,
            supports_cookies: true,
            require_js_player: true,
            require_auth: false,
            authenticated_user_agent: None,
            gvs_po_token_policy: web_gvs,
            player_po_token_policy: PlayerPoTokenPolicy::default(),
            subs_po_token_policy: SubsPoTokenPolicy::default(),
            priority,
        },
        YtClient::WebMusic => ClientProfile {
            context_client_name: "WEB_REMIX",
            client_version: "1.20250922.03.00",
            user_agent: None,
            extra_context: Vec::new(),
            innertube_host: "music.youtube.com",
            innertube_context_client_name: 67,
            supports_cookies: true,
            require_js_player: true,
            require_auth: false,
            authenticated_user_agent: None,
            gvs_po_token_policy: web_gvs,
            player_po_token_policy: PlayerPoTokenPolicy::default(),
            subs_po_token_policy: SubsPoTokenPolicy::default(),
            priority,
        },
        YtClient::WebCreator => ClientProfile {
            context_client_name: "WEB_CREATOR",
            client_version: "1.20250922.03.00",
            user_agent: None,
            extra_context: Vec::new(),
            innertube_host: "www.youtube.com",
            innertube_context_client_name: 62,
            supports_cookies: true,
            require_js_player: true,
            require_auth: true,
            authenticated_user_agent: None,
            gvs_po_token_policy: web_gvs,
            player_po_token_policy: PlayerPoTokenPolicy::default(),
            subs_po_token_policy: SubsPoTokenPolicy::default(),
            priority,
        },
        YtClient::Android => {
            let mut extra: Vec<(&'static str, &'static str)> = Vec::new();
            extra.push(("androidSdkVersion", "30"));
            extra.push(("osName", "Android"));
            extra.push(("osVersion", "11"));
            ClientProfile {
                context_client_name: "ANDROID",
                client_version: "20.10.38",
                user_agent: Some(
                    "com.google.android.youtube/20.10.38 (Linux; U; Android 11) gzip",
                ),
                extra_context: extra,
                innertube_host: "www.youtube.com",
                innertube_context_client_name: 3,
                supports_cookies: false,
                require_js_player: false,
                require_auth: false,
                authenticated_user_agent: None,
                gvs_po_token_policy: GvsPoTokenPolicies {
                    https: android_pot,
                    dash: android_pot,
                    hls: GvsPoTokenPolicy {
                        required: false,
                        recommended: true,
                        not_required_for_premium: false,
                        not_required_with_player_token: true,
                    },
                },
                player_po_token_policy: PlayerPoTokenPolicy {
                    required: false,
                    recommended: true,
                    not_required_for_premium: false,
                },
                subs_po_token_policy: SubsPoTokenPolicy::default(),
                priority,
            }
        },
        YtClient::AndroidSdkless => {
            let mut extra: Vec<(&'static str, &'static str)> = Vec::new();
            extra.push(("osName", "Android"));
            extra.push(("osVersion", "11"));
            ClientProfile {
                context_client_name: "ANDROID",
                client_version: "20.10.38",
                user_agent: Some(
                    "com.google.android.youtube/20.10.38 (Linux; U; Android 11) gzip",
                ),
                extra_context: extra,
                innertube_host: "www.youtube.com",
                innertube_context_client_name: 3,
                supports_cookies: false,
                require_js_player: false,
                require_auth: false,
                authenticated_user_agent: None,
                gvs_po_token_policy: create_default_gvs_po_token_policy(),
                player_po_token_policy: PlayerPoTokenPolicy::default(),
                subs_po_token_policy: SubsPoTokenPolicy::default(),
                priority,
            }
        },
        YtClient::AndroidVr => {
            let mut extra: Vec<(&'static str, &'static str)> = Vec::new();
            extra.push(("deviceMake", "Oculus"));
            extra.push(("deviceModel", "Quest 3"));
            extra.push(("androidSdkVersion", "32"));
            extra.push(("osName", "Android"));
            extra.push(("osVersion", "12L"));
            ClientProfile {
                context_client_name: "ANDROID_VR",
                client_version: "1.65.10",
                user_agent: Some(
                    "com.google.android.apps.youtube.vr.oculus/1.65.10 (Linux; U; Android 12L; eureka-user Build/SQ3A.220605.009.A1) gzip",
                ),
                extra_context: extra,
                innertube_host: "www.youtube.com",
                innertube_context_client_name: 28,
                supports_cookies: false,
                require_js_player: false,
                require_auth: false,
                authenticated_user_agent: None,
                gvs_po_token_policy: create_default_gvs_po_token_policy(),
                player_po_token_policy: PlayerPoTokenPolicy::default(),
                subs_po_token_policy: SubsPoTokenPolicy::default(),
                priority,
            }
        },
        YtClient::IOS => {
            let mut extra: Vec<(&'static str, &'static str)> = Vec::new();
            extra.push(("deviceMake", "Apple"));
            extra.push(("deviceModel", "iPhone16,2"));
            extra.push(("osName", "iPhone"));
            extra.push(("osVersion", "18.3.2.22D82"));
            ClientProfile {
                context_client_name: "IOS",
                client_version: "20.10.4",
                user_agent: Some(
                    "com.google.ios.youtube/20.10.4 (iPhone16,2; U; CPU iOS 18_3_2 like Mac OS X;)",
                ),
                extra_context: extra,
                innertube_host: "www.youtube.com",
                innertube_context_client_name: 5,
                supports_cookies: false,
                require_js_player: false,
                require_auth: false,
                authenticated_user_agent: None,
                gvs_po_token_policy: GvsPoTokenPolicies {
                    https: android_pot,
                    dash: GvsPoTokenPolicy::default(),
                    hls: android_pot,
                },
                player_po_token_policy: PlayerPoTokenPolicy {
                    required: false,
                    recommended: true,
                    not_required_for_premium: false,
                },
                subs_po_token_policy: SubsPoTokenPolicy::default(),
                priority,
            }
        },
        YtClient::MWeb => ClientProfile {
            context_client_name: "MWEB",
            client_version: "2.20250925.01.00",
            user_agent: Some(
                "Mozilla/5.0 (iPad; CPU OS 16_7_10 like Mac OS X) AppleWebKit/605.1.15 (KHTML, like Gecko) Version/16.6 Mobile/15E148 Safari/604.1,gzip(gfe)",
            ),
            extra_context: Vec::new(),
            innertube_host: "www.youtube.com",
            innertube_context_client_name: 2,
            supports_cookies: true,
            require_js_player: true,
            require_auth: false,
            authenticated_user_agent: None,
            gvs_po_token_policy: web_gvs,
            player_po_token_policy: PlayerPoTokenPolicy::default(),
            subs_po_token_policy: SubsPoTokenPolicy::default(),
            priority,
        },
        YtClient::Tv => ClientProfile {
            context_client_name: "TVHTML5",
            client_version: "7.20250923.13.00",
            user_agent: Some("Mozilla/5.0 (ChromiumStylePlatform) Cobalt/Version"),
            extra_context: Vec::new(),
            innertube_host: "www.youtube.com",
            innertube_context_client_name: 7,
            supports_cookies: true,
            require_js_player: true,
            require_auth: false,
            authenticated_user_agent: Some(
                "Mozilla/5.0 (ChromiumStylePlatform) Cobalt/25.lts.30.1034943-gold (unlike Gecko), Unknown_TV_Unknown_0/Unknown (Unknown, Unknown)",
            ),
            gvs_po_token_policy: web_gvs,
            player_po_token_policy: PlayerPoTokenPolicy::default(),
            subs_po_token_policy: SubsPoTokenPolicy::default(),
            priority,
        },
        YtClient::TvSimply => ClientProfile {
            context_client_name: "TVHTML5_SIMPLY",
            client_version: "1.0",
            user_agent: None,
            extra_context: Vec::new(),
            innertube_host: "www.youtube.com",
            innertube_context_client_name: 75,
            supports_cookies: false,
            require_js_player: true,
            require_auth: false,
            authenticated_user_agent: None,
            gvs_po_token_policy: GvsPoTokenPolicies {
                https: GvsPoTokenPolicy {
                    required: true,
                    recommended: true,
                    not_required_for_premium: false,
                    not_required_with_player_token: false,
                },
                dash: GvsPoTokenPolicy {
                    required: true,
                    recommended: true,
                    not_required_for_premium: false,
                    not_required_with_player_token: false,
                },
                hls: GvsPoTokenPolicy {
                    required: false,
                    recommended: true,
                    not_required_for_premium: false,
                    not_required_with_player_token: false,
                },
            },
            player_po_token_policy: PlayerPoTokenPolicy::default(),
            subs_po_token_policy: SubsPoTokenPolicy::default(),
            priority,
        },
        YtClient::TvEmbedded => ClientProfile {
            context_client_name: "TVHTML5_SIMPLY_EMBEDDED_PLAYER",
            client_version: "2.0",
            user_agent: None,
            extra_context: Vec::new(),
            innertube_host: "www.youtube.com",
            innertube_context_client_name: 85,
            supports_cookies: true,
            require_js_player: true,
            require_auth: true,
            authenticated_user_agent: None,
            gvs_po_token_policy: create_default_gvs_po_token_policy(),
            player_po_token_policy: PlayerPoTokenPolicy::default(),
            subs_po_token_policy: SubsPoTokenPolicy::default(),
            priority,
        },
    }
}

} // verus!
