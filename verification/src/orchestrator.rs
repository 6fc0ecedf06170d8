//! The multi-client orchestration rules: client selection and
//! de-duplication, playability checks, player-URL resolution, and the
//! per-client loop step with its age-gate fallbacks.
use vstd::prelude::*;
use vstd::string::StringExecFns;

use crate::chars::{contains_sub, has_sub, str_eq, str_chars};
use crate::client::{client_profile, spec_client_variant, spec_supports_cookies, YtClient};
use crate::ids::VideoId;
use crate::jsonx::{get_path, spec_get, spec_get_path, JsonVal};
use crate::playerjs::{construct_player_url, PlayerIdentifier};

verus! {

broadcast use {vstd::std_specs::vec::group_vec_axioms, vstd::seq::group_seq_axioms};

/// `s` with every later duplicate removed: each element kept at its
/// first occurrence only.
pub open spec fn spec_dedup(s: Seq<YtClient>) -> Seq<YtClient>
    decreases s.len(),
{
    if s.len() == 0 {
        Seq::empty()
    } else if s.drop_last().contains(s.last()) {
        spec_dedup(s.drop_last())
    } else {
        spec_dedup(s.drop_last()).push(s.last())
    }
}

/// Law: de-duplication emits no duplicate tags and keeps exactly the
/// tags of the input, each at its first occurrence.
pub proof fn lemma_dedup_clients(s: Seq<YtClient>)
    ensures
        forall|i: int, j: int|
            0 <= i < j < spec_dedup(s).len() ==> spec_dedup(s)[i] != spec_dedup(s)[j],
        forall|x: YtClient| spec_dedup(s).contains(x) <==> s.contains(x),
    decreases s.len(),
{
    if s.len() > 0 {
        lemma_dedup_clients(s.drop_last());
        let d = spec_dedup(s);
        let dprev = spec_dedup(s.drop_last());
        assert forall|x: YtClient| d.contains(x) <==> s.contains(x) by {
            if s.drop_last().contains(s.last()) {
                if s.contains(x) {
                    let w = choose|i: int| 0 <= i < s.len() && s[i] == x;
                    if w < s.len() - 1 {
                        assert(s.drop_last()[w] == x);
                    } else {
                        assert(s.drop_last().contains(x));
                    }
                }
                if s.drop_last().contains(x) {
                    let w = choose|i: int| 0 <= i < s.drop_last().len() && s.drop_last()[i] == x;
                    assert(s[w] == x);
                }
            } else {
                if s.contains(x) {
                    let w = choose|i: int| 0 <= i < s.len() && s[i] == x;
                    if w < s.len() - 1 {
                        assert(s.drop_last()[w] == x);
                        assert(s.drop_last().contains(x));
                        assert(spec_dedup(s.drop_last()).contains(x));
                        let v = choose|i: int| 0 <= i < dprev.len() && dprev[i] == x;
                        assert(d[v] == x);
                    } else {
                        assert(d.last() == x);
                    }
                }
                if d.contains(x) {
                    let w = choose|i: int| 0 <= i < d.len() && d[i] == x;
                    if w < d.len() - 1 {
                        assert(dprev[w] == x);
                        assert(spec_dedup(s.drop_last()).contains(x));
                        assert(s.drop_last().contains(x));
                        let v = choose|i: int|
                            0 <= i < s.drop_last().len() && s.drop_last()[i] == x;
                        assert(s[v] == x);
                    } else {
                        assert(s.last() == x);
                    }
                }
            }
        }
        if !s.drop_last().contains(s.last()) {
            assert forall|i: int, j: int| 0 <= i < j < d.len() implies d[i] != d[j] by {
                if j < d.len() - 1 {
                    assert(dprev[i] == d[i] && dprev[j] == d[j]);
                } else {
                    assert(d[i] == dprev[i]);
                    assert(dprev.contains(dprev[i]));
                    assert(s.drop_last().contains(d[i]));
                }
            }
        }
    }
}

/// Removes duplicate clients, keeping first occurrences in order.
#[verifier::loop_isolation(false)]
pub fn dedup_clients(clients: &Vec<YtClient>) -> (r: Vec<YtClient>)
    ensures
        r@ == spec_dedup(clients@),
{
    let n = clients.len();
    let mut out: Vec<YtClient> = Vec::new();
    let mut i: usize = 0;
    proof {
        assert(clients@.take(0) =~= Seq::<YtClient>::empty());
        assert(out@ =~= spec_dedup(clients@.take(0)));
    }
    while i < n
        invariant
            0 <= i <= n,
            out@ == spec_dedup(clients@.take(i as int)),
        decreases n - i,
    {
        let c = clients[i];
        let mut seen = false;
        let mut j: usize = 0;
        while j < i
            invariant
                0 <= j <= i <= n,
                seen == clients@.take(i as int).take(j as int).contains(c),
            decreases i - j,
        {
            proof {
                assert(clients@.take(i as int).take(j as int).push(clients@[j as int])
                    =~= clients@.take(i as int).take(j + 1));
            }
            if clients[j] == c {
                proof {
                    assert(clients@.take(i as int).take(j + 1)[j as int] == c);
                }
                seen = true;
            } else {
                proof {
                    if clients@.take(i as int).take(j + 1).contains(c) {
                        let w = choose|k: int|
                            0 <= k < j + 1 && (#[trigger] clients@.take(i as int).take(j + 1)[k])
                                == c;
                        if w < j {
                            assert(clients@.take(i as int).take(j as int)[w] == c);
                        }
                    }
                }
            }
            j = j + 1;
        }
        proof {
            assert(clients@.take(i as int).take(i as int) =~= clients@.take(i as int));
            assert(clients@.take(i + 1).drop_last() =~= clients@.take(i as int));
            assert(clients@.take(i + 1).last() == clients@[i as int]);
        }
        if !seen {
            out.push(c);
        }
        i = i + 1;
    }
    proof {
        assert(clients@.take(n as int) =~= clients@);
    }
    out
}

/// The ordered client selection before de-duplication: the premium,
/// authenticated or anonymous base list, the music client for
/// authenticated music callers, all minus the cookie-less clients when
/// authenticated.
pub open spec fn spec_selection_with_music(
    premium: bool,
    authenticated: bool,
    music: bool,
) -> Seq<YtClient> {
    let base: Seq<YtClient> = if premium {
        seq![YtClient::Tv, YtClient::WebCreator, YtClient::WebSafari, YtClient::Web]
    } else if authenticated {
        seq![YtClient::Tv, YtClient::WebSafari, YtClient::Web]
    } else {
        seq![YtClient::AndroidSdkless, YtClient::Tv, YtClient::WebSafari, YtClient::Web]
    };
    if music && authenticated {
        base.push(YtClient::WebMusic)
    } else {
        base
    }
}

pub open spec fn spec_client_selection(premium: bool, authenticated: bool, music: bool) -> Seq<
    YtClient,
> {
    if authenticated {
        spec_selection_with_music(premium, authenticated, music).filter(
            |c: YtClient| spec_supports_cookies(c),
        )
    } else {
        spec_selection_with_music(premium, authenticated, music)
    }
}

/// Selects the clients to fan out over, without duplicates and in
/// first-occurrence order.
#[verifier::loop_isolation(false)]
pub fn get_clients(is_premium_subscriber: bool, authenticated: bool, music: bool) -> (r: Vec<
    YtClient,
>)
    ensures
        r@ == spec_dedup(spec_client_selection(is_premium_subscriber, authenticated, music)),
{
    let mut clients: Vec<YtClient> = Vec::new();
    if is_premium_subscriber {
        clients.push(YtClient::Tv);
        clients.push(YtClient::WebCreator);
        clients.push(YtClient::WebSafari);
        clients.push(YtClient::Web);
    } else if authenticated {
        clients.push(YtClient::Tv);
        clients.push(YtClient::WebSafari);
        clients.push(YtClient::Web);
    } else {
        clients.push(YtClient::AndroidSdkless);
        clients.push(YtClient::Tv);
        clients.push(YtClient::WebSafari);
        clients.push(YtClient::Web);
    }
    if music && authenticated {
        clients.push(YtClient::WebMusic);
    }
    proof {
        assert(clients@ =~= spec_selection_with_music(is_premium_subscriber, authenticated,
            music));
    }
    let selected: Vec<YtClient> = if authenticated {
        let ghost pred = |c: YtClient| spec_supports_cookies(c);
        let mut kept: Vec<YtClient> = Vec::new();
        let n = clients.len();
        let mut i: usize = 0;
        proof {
            reveal_with_fuel(Seq::filter, 2);
            assert(kept@ =~= clients@.take(0).filter(pred));
        }
        while i < n
            invariant
                0 <= i <= n,
                kept@ == clients@.take(i as int).filter(pred),
            decreases n - i,
        {
            proof {
                reveal_with_fuel(Seq::filter, 2);
                assert(clients@.take(i + 1).drop_last() =~= clients@.take(i as int));
                assert(clients@.take(i + 1).last() == clients@[i as int]);
            }
            let c = clients[i];
            if client_profile(c).supports_cookies {
                kept.push(c);
            }
            i = i + 1;
        }
        proof {
            assert(clients@.take(n as int) =~= clients@);
        }
        kept
    } else {
        clients
    };
    proof {
        assert(selected@ == spec_client_selection(is_premium_subscriber, authenticated, music));
    }
    dedup_clients(&selected)
}

/// The substrings of a playability reason that mark an age gate.
pub open spec fn spec_age_gate_reason(s: Seq<char>) -> bool {
    ||| has_sub(s, "confirm your age"@)
    ||| has_sub(s, "age-restricted"@)
    ||| has_sub(s, "inappropriate"@)
    ||| has_sub(s, "age_verification_required"@)
    ||| has_sub(s, "age_check_required"@)
}

fn age_gate_reason(s: &str) -> (r: bool)
    ensures
        r == spec_age_gate_reason(s@),
{
    let cs = str_chars(s);
    contains_sub(cs.as_slice(), "confirm your age") || contains_sub(cs.as_slice(), "age-restricted")
        || contains_sub(cs.as_slice(), "inappropriate") || contains_sub(
        cs.as_slice(),
        "age_verification_required",
    ) || contains_sub(cs.as_slice(), "age_check_required")
}

/// Whether a player response is age-gated: a desktop legacy age-gate
/// reason, or any playability reason that names an age restriction.
pub open spec fn spec_is_age_gated(pr: JsonVal) -> bool {
    ||| spec_get_path(pr, seq!["playabilityStatus"@, "desktopLegacyAgeGateReason"@]) is Some
    ||| (match spec_get_path(pr, seq!["playabilityStatus"@, "status"@, "reason"@]) {
        Some(JsonVal::Arr(a)) => exists|i: int|
            0 <= i < a@.len() && ((#[trigger] a@[i]) matches JsonVal::Str(s)
                && spec_age_gate_reason(s@)),
        _ => false,
    })
}

/// Tests a player response for the age gate.
#[verifier::loop_isolation(false)]
pub fn is_age_gated(pr: &JsonVal) -> (r: bool)
    ensures
        r == spec_is_age_gated(*pr),
{
    proof {
        assert(seq!["playabilityStatus"@, "desktopLegacyAgeGateReason"@] =~= [
            "playabilityStatus",
            "desktopLegacyAgeGateReason",
        ].deep_view());
        assert(seq!["playabilityStatus"@, "status"@, "reason"@] =~= [
            "playabilityStatus",
            "status",
            "reason",
        ].deep_view());
    }
    let legacy = ["playabilityStatus", "desktopLegacyAgeGateReason"];
    if get_path(pr, legacy.as_slice()).is_some() {
        return true;
    }
    let reason_path = ["playabilityStatus", "status", "reason"];
    match get_path(pr, reason_path.as_slice()) {
        Some(v) => {
            match v.as_arr() {
                Some(reasons) => {
                    let n = reasons.len();
                    let mut i: usize = 0;
                    while i < n
                        invariant
                            0 <= i <= n,
                            forall|j: int|
                                0 <= j < i ==> !((#[trigger] reasons@[j]) matches JsonVal::Str(s)
                                    && spec_age_gate_reason(s@)),
                        decreases n - i,
                    {
                        match reasons[i].as_str() {
                            Some(s) => {
                                if age_gate_reason(s) {
                                    proof {
                                        assert(reasons@[i as int] matches JsonVal::Str(t)
                                            && spec_age_gate_reason(t@));
                                    }
                                    return true;
                                }
                            },
                            None => {},
                        }
                        i = i + 1;
                    }
                    false
                },
                None => false,
            }
        },
        None => false,
    }
}

/// Whether a player response reports the video unplayable.
pub open spec fn spec_is_unplayable(pr: JsonVal) -> bool {
    match spec_get_path(pr, seq!["playabilityStatus"@, "status"@]) {
        Some(JsonVal::Str(s)) => s@ == "UNPLAYABLE"@,
        _ => false,
    }
}

pub fn is_unplayable(pr: &JsonVal) -> (r: bool)
    ensures
        r == spec_is_unplayable(*pr),
{
    proof {
        assert(seq!["playabilityStatus"@, "status"@] =~= [
            "playabilityStatus",
            "status",
        ].deep_view());
    }
    let path = ["playabilityStatus", "status"];
    match get_path(pr, path.as_slice()) {
        Some(v) => match v.as_str() {
            Some(s) => str_eq(s, "UNPLAYABLE"),
            None => false,
        },
        None => false,
    }
}

/// The video id a player response claims, when it differs from the
/// requested one; the id defaults to empty when absent.
pub open spec fn spec_invalid_player_response(pr: JsonVal, video_id: Seq<char>) -> Option<
    Seq<char>,
> {
    let claimed: Seq<char> = match spec_get_path(pr, seq!["videoDetails"@, "videoId"@]) {
        Some(JsonVal::Str(s)) => s@,
        _ => Seq::empty(),
    };
    if claimed != video_id {
        Some(claimed)
    } else {
        None
    }
}

/// Checks that a player response is about the requested video; hands
/// back the wrong id otherwise.
pub fn invalid_player_response(pr: &JsonVal, video_id: &VideoId) -> (r: Option<String>)
    ensures
        r.deep_view() == spec_invalid_player_response(*pr, video_id@),
{
    proof {
        assert(seq!["videoDetails"@, "videoId"@] =~= ["videoDetails", "videoId"].deep_view());
    }
    let path = ["videoDetails", "videoId"];
    let claimed: String = match get_path(pr, path.as_slice()) {
        Some(v) => match v.as_str() {
            Some(s) => String::from_str(s),
            None => String::new(),
        },
        None => String::new(),
    };
    if !str_eq(claimed.as_str(), video_id.as_str()) {
        Some(claimed)
    } else {
        None
    }
}

/// The player URL one configuration offers: its `PLAYER_JS_URL`, else the
/// first `jsUrl` among its web player context configurations.
pub open spec fn spec_player_url_of_config(c: JsonVal) -> Option<Seq<char>> {
    match spec_get(c, "PLAYER_JS_URL"@) {
        Some(JsonVal::Str(u)) => Some("https://www.youtube.com"@ + u@),
        _ => match spec_get(c, "WEB_PLAYER_CONTEXT_CONFIGS"@) {
            Some(JsonVal::Obj(entries)) => spec_first_js_url(entries@),
            _ => None,
        },
    }
}

pub open spec fn spec_first_js_url(entries: Seq<(String, JsonVal)>) -> Option<Seq<char>>
    decreases entries.len(),
{
    if entries.len() == 0 {
        None
    } else {
        match spec_get(entries[0].1, "jsUrl"@) {
            Some(JsonVal::Str(u)) => Some("https://www.youtube.com"@ + u@),
            _ => spec_first_js_url(entries.drop_first()),
        }
    }
}

/// The player URL the configurations resolve, first hit wins.
pub open spec fn spec_get_player_url(configs: Seq<JsonVal>) -> Option<Seq<char>>
    decreases configs.len(),
{
    if configs.len() == 0 {
        None
    } else if spec_player_url_of_config(configs[0]) is Some {
        spec_player_url_of_config(configs[0])
    } else {
        spec_get_player_url(configs.drop_first())
    }
}

/// Resolves the player-script URL out of the configuration blobs.
#[verifier::loop_isolation(false)]
pub fn get_player_url<'a>(configs: &[&'a JsonVal]) -> (r: Option<String>)
    ensures
        r.deep_view() == spec_get_player_url(configs.deep_view()),
{
    let n = configs.len();
    let mut i: usize = 0;
    proof {
        assert(configs.deep_view().skip(0) =~= configs.deep_view());
    }
    while i < n
        invariant
            0 <= i <= n,
            spec_get_player_url(configs.deep_view()) == spec_get_player_url(
                configs.deep_view().skip(i as int),
            ),
        decreases n - i,
    {
        proof {
            assert(configs.deep_view().skip(i as int)[0] == configs.deep_view()[i as int]);
            assert(configs.deep_view()[i as int] == configs@[i as int].deep_view());
            assert(configs.deep_view().skip(i as int).drop_first() =~= configs.deep_view().skip(
                i + 1,
            ));
        }
        match configs[i].get("PLAYER_JS_URL") {
            Some(v) => {
                match v.as_str() {
                    Some(u) => {
                        let built = construct_player_url(
                            PlayerIdentifier::PlayerUrl(String::from_str(u)),
                        );
                        return Some(built);
                    },
                    None => {},
                }
            },
            None => {},
        }
        let from_web_configs = match configs[i].get("WEB_PLAYER_CONTEXT_CONFIGS") {
            Some(w) => {
                match w.as_obj() {
                    Some(entries) => first_js_url(entries),
                    None => None,
                }
            },
            None => None,
        };
        match from_web_configs {
            Some(u) => {
                return Some(u);
            },
            None => {},
        }
        proof {
            if !(spec_get(configs.deep_view()[i as int], "PLAYER_JS_URL"@) matches Some(
                JsonVal::Str(_),
            )) {
                assert(spec_player_url_of_config(configs.deep_view()[i as int]) is None);
            }
        }
        i = i + 1;
    }
    proof {
        assert(configs.deep_view().skip(n as int).len() == 0);
    }
    None
}

#[verifier::loop_isolation(false)]
fn first_js_url(entries: &Vec<(String, JsonVal)>) -> (r: Option<String>)
    ensures
        (r matches Some(u) ==> spec_first_js_url(entries@) == Some(u@)),
        r is None <==> spec_first_js_url(entries@) is None,
{
    let n = entries.len();
    let mut i: usize = 0;
    proof {
        assert(entries@.skip(0) =~= entries@);
    }
    while i < n
        invariant
            0 <= i <= n,
            spec_first_js_url(entries@) == spec_first_js_url(entries@.skip(i as int)),
        decreases n - i,
    {
        proof {
            assert(entries@.skip(i as int)[0] == entries@[i as int]);
            assert(entries@.skip(i as int).drop_first() =~= entries@.skip(i + 1));
        }
        match entries[i].1.get("jsUrl") {
            Some(v) => {
                match v.as_str() {
                    Some(u) => {
                        let built = construct_player_url(
                            PlayerIdentifier::PlayerUrl(String::from_str(u)),
                        );
                        return Some(built);
                    },
                    None => {},
                }
            },
            None => {},
        }
        i = i + 1;
    }
    proof {
        assert(entries@.skip(n as int).len() == 0);
    }
    None
}

/// The visitor id the configurations offer: `VISITOR_DATA`, else the
/// Innertube context's visitor data, else the response context's.
pub open spec fn spec_visitor_of_config(c: JsonVal) -> Option<Seq<char>> {
    match spec_get(c, "VISITOR_DATA"@) {
        Some(JsonVal::Str(s)) => Some(s@),
        _ => match spec_get_path(c, seq!["INNERTUBE_CONTEXT"@, "client"@, "visitorData"@]) {
            Some(JsonVal::Str(s)) => Some(s@),
            _ => match spec_get_path(c, seq!["responseContext"@, "visitorData"@]) {
                Some(JsonVal::Str(s)) => Some(s@),
                _ => None,
            },
        },
    }
}

pub open spec fn spec_select_visitor_data(configs: Seq<JsonVal>) -> Option<Seq<char>>
    decreases configs.len(),
{
    if configs.len() == 0 {
        None
    } else if spec_visitor_of_config(configs[0]) is Some {
        spec_visitor_of_config(configs[0])
    } else {
        spec_select_visitor_data(configs.drop_first())
    }
}

/// Picks the visitor id out of the configuration blobs, first hit wins.
#[verifier::loop_isolation(false)]
pub fn select_visitor_data<'a>(configs: &[&'a JsonVal]) -> (r: Option<String>)
    ensures
        r.deep_view() == spec_select_visitor_data(configs.deep_view()),
{
    let n = configs.len();
    let mut i: usize = 0;
    proof {
        assert(configs.deep_view().skip(0) =~= configs.deep_view());
    }
    while i < n
        invariant
            0 <= i <= n,
            spec_select_visitor_data(configs.deep_view()) == spec_select_visitor_data(
                configs.deep_view().skip(i as int),
            ),
        decreases n - i,
    {
        proof {
            assert(configs.deep_view().skip(i as int)[0] == configs.deep_view()[i as int]);
            assert(configs.deep_view()[i as int] == configs@[i as int].deep_view());
            assert(configs.deep_view().skip(i as int).drop_first() =~= configs.deep_view().skip(
                i + 1,
            ));
            assert(seq!["INNERTUBE_CONTEXT"@, "client"@, "visitorData"@] =~= [
                "INNERTUBE_CONTEXT",
                "client",
                "visitorData",
            ].deep_view());
            assert(seq!["responseContext"@, "visitorData"@] =~= [
                "responseContext",
                "visitorData",
            ].deep_view());
        }
        match configs[i].get("VISITOR_DATA") {
            Some(v) => {
                match v.as_str() {
                    Some(s) => {
                        return Some(String::from_str(s));
                    },
                    None => {},
                }
            },
            None => {},
        }
        let p1 = ["INNERTUBE_CONTEXT", "client", "visitorData"];
        match get_path(configs[i], p1.as_slice()) {
            Some(v) => {
                match v.as_str() {
                    Some(s) => {
                        return Some(String::from_str(s));
                    },
                    None => {},
                }
            },
            None => {},
        }
        let p2 = ["responseContext", "visitorData"];
        match get_path(configs[i], p2.as_slice()) {
            Some(v) => {
                match v.as_str() {
                    Some(s) => {
                        return Some(String::from_str(s));
                    },
                    None => {},
                }
            },
            None => {},
        }
        i = i + 1;
    }
    proof {
        assert(configs.deep_view().skip(n as int).len() == 0);
    }
    None
}

/// The per-extraction loop state: the clients still to try (a stack whose
/// top is the end), the accepted responses, and the sticky session data.
pub struct ClientLoopState {
    pub pending: Vec<YtClient>,
    pub accepted: Vec<(YtClient, JsonVal)>,
    pub tried_iframe_fallback: bool,
    pub player_url: Option<String>,
    pub visitor_data: Option<String>,
    pub data_sync_id: Option<String>,
}

impl ClientLoopState {
    /// A fresh loop over `clients`, first client on top of the stack.
    pub fn start(clients: &Vec<YtClient>) -> (r: ClientLoopState)
        ensures
            r.pending@ == clients@.reverse(),
            r.accepted@.len() == 0,
            !r.tried_iframe_fallback,
            r.player_url is None,
            r.visitor_data is None,
            r.data_sync_id is None,
    {
        let n = clients.len();
        let mut pending: Vec<YtClient> = Vec::new();
        let mut i: usize = 0;
        while i < n
            invariant
                0 <= i <= n,
                n == clients@.len(),
                pending@.len() == i,
                forall|j: int| 0 <= j < i ==> pending@[j] == clients@[n - 1 - j],
            decreases n - i,
        {
            pending.push(clients[n - 1 - i]);
            i = i + 1;
        }
        proof {
            assert(pending@ =~= clients@.reverse());
        }
        ClientLoopState {
            pending,
            accepted: Vec::new(),
            tried_iframe_fallback: false,
            player_url: None,
            visitor_data: None,
            data_sync_id: None,
        }
    }

    /// Pops the next client to try.
    pub fn next_client(&mut self) -> (r: Option<YtClient>)
        ensures
            old(self).pending@.len() == 0 ==> ({
                &&& r is None
                &&& final(self).pending@ == old(self).pending@
            }),
            old(self).pending@.len() > 0 ==> ({
                &&& r == Some(old(self).pending@.last())
                &&& final(self).pending@ == old(self).pending@.drop_last()
            }),
            final(self).accepted == old(self).accepted,
            final(self).tried_iframe_fallback == old(self).tried_iframe_fallback,
            final(self).player_url == old(self).player_url,
            final(self).visitor_data == old(self).visitor_data,
            final(self).data_sync_id == old(self).data_sync_id,
    {
        let popped = self.pending.pop();
        proof {
            if old(self).pending@.len() > 0 {
                assert(self.pending@ =~= old(self).pending@.drop_last());
            }
        }
        popped
    }
}

/// What one client's response does to the loop: whether it is accepted,
/// and which fallback clients are pushed.
pub open spec fn spec_step_effect(
    pending: Seq<YtClient>,
    accepted: Seq<(YtClient, JsonVal)>,
    client: YtClient,
    response: JsonVal,
    video_id: Seq<char>,
    authenticated: bool,
) -> (Seq<YtClient>, Seq<(YtClient, JsonVal)>) {
    if spec_invalid_player_response(response, video_id) is Some {
        (pending, accepted)
    } else {
        let accepted2 = if !(response matches JsonVal::Obj(o) && o@.len() == 0) {
            accepted.push((client, response))
        } else {
            accepted
        };
        let gated = spec_is_age_gated(response);
        let pending2 = if gated && spec_client_variant(client) != "embedded"@ {
            pending.push(YtClient::WebEmbedded)
        } else {
            pending
        };
        if gated && !authenticated {
            (pending2, accepted2)
        } else {
            let embedding_disabled = spec_client_variant(client) == "embedded"@
                && spec_is_unplayable(response);
            if authenticated && (gated || embedding_disabled) {
                (pending2.push(YtClient::TvEmbedded).push(YtClient::WebCreator), accepted2)
            } else {
                (pending2, accepted2)
            }
        }
    }
}

impl ClientLoopState {
    /// Feeds one client's player response into the loop: an invalid
    /// response is skipped; an accepted one joins the list; an age gate
    /// schedules the embedded-player fallbacks.
    pub fn step(&mut self, client: YtClient, response: JsonVal, video_id: &VideoId,
        authenticated: bool)
        ensures
            ({
                let eff = spec_step_effect(
                    old(self).pending@,
                    old(self).accepted@,
                    client,
                    response,
                    video_id@,
                    authenticated,
                );
                &&& final(self).pending@ == eff.0
                &&& final(self).accepted@ == eff.1
                &&& final(self).tried_iframe_fallback == old(self).tried_iframe_fallback
                &&& final(self).player_url == old(self).player_url
                &&& final(self).visitor_data == old(self).visitor_data
                &&& final(self).data_sync_id == old(self).data_sync_id
            }),
    {
        if invalid_player_response(&response, video_id).is_some() {
            return ;
        }
        let gated = is_age_gated(&response);
        let unplayable = is_unplayable(&response);
        if !response.is_empty_obj() {
            self.accepted.push((client, response));
        }
        let variant_embedded = str_eq(client.get_variant(), "embedded");
        if gated && !variant_embedded {
            self.pending.push(YtClient::WebEmbedded);
        }
        if gated && !authenticated {
            return ;
        }
        let embedding_disabled = variant_embedded && unplayable;
        if authenticated && (gated || embedding_disabled) {
            self.pending.push(YtClient::TvEmbedded);
            self.pending.push(YtClient::WebCreator);
        }
    }
}

/// Law: an age-gated response from a non-embedded client schedules the
/// embedded web client as the next fallback to try.
pub proof fn lemma_age_gate_extends_pending(
    pending: Seq<YtClient>,
    accepted: Seq<(YtClient, JsonVal)>,
    client: YtClient,
    response: JsonVal,
    video_id: Seq<char>,
    authenticated: bool,
)
    requires
        spec_invalid_player_response(response, video_id) is None,
        spec_is_age_gated(response),
        spec_client_variant(client) != "embedded"@,
    ensures
        ({
            let eff = spec_step_effect(pending, accepted, client, response, video_id,
                authenticated);
            eff.0.contains(YtClient::WebEmbedded) && eff.0[pending.len() as int]
                == YtClient::WebEmbedded
        }),
{
    let eff = spec_step_effect(pending, accepted, client, response, video_id, authenticated);
    assert(eff.0[pending.len() as int] == YtClient::WebEmbedded);
}


/// Whether the account behind `initial_data` has a premium subscription:
/// the premium logo, or a topbar tooltip that names premium.
pub open spec fn spec_is_premium_subscriber(authenticated: bool, initial_data: JsonVal) -> bool {
    if !authenticated || (initial_data matches JsonVal::Obj(o) && o@.len() == 0) {
        false
    } else {
        let tlr = spec_get_path(
            initial_data,
            seq!["topbar"@, "desktopTopbarRenderer"@, "logo"@, "topbarLogoRenderer"@],
        );
        let logo: Seq<char> = match tlr {
            Some(t) => match spec_get_path(t, seq!["iconImage"@, "iconType"@]) {
                Some(JsonVal::Str(s)) => s@,
                _ => Seq::empty(),
            },
            None => Seq::empty(),
        };
        let tooltip: Seq<char> = match tlr {
            Some(t) => match crate::jsonx::spec_get_text(t, seq!["tooltipText"@], None) {
                Some(s) => s,
                None => Seq::empty(),
            },
            None => Seq::empty(),
        };
        logo == "YOUTUBE_PREMIUM_LOGO"@ || has_sub(
            crate::chars::spec_ascii_lower(tooltip),
            "premium"@,
        )
    }
}

/// Decides premium standing from the topbar of the initial data.
pub fn is_premium_subscriber(authenticated: bool, initial_data: &JsonVal) -> (r: bool)
    ensures
        r == spec_is_premium_subscriber(authenticated, *initial_data),
{
    if !authenticated {
        return false;
    }
    if initial_data.is_empty_obj() {
        return false;
    }
    proof {
        assert(seq!["topbar"@, "desktopTopbarRenderer"@, "logo"@, "topbarLogoRenderer"@] =~= [
            "topbar",
            "desktopTopbarRenderer",
            "logo",
            "topbarLogoRenderer",
        ].deep_view());
        assert(seq!["iconImage"@, "iconType"@] =~= ["iconImage", "iconType"].deep_view());
        assert(seq!["tooltipText"@] =~= ["tooltipText"].deep_view());
        reveal_strlit("premium");
        reveal_strlit("YOUTUBE_PREMIUM_LOGO");
        assert("premium"@.len() == 7);
        assert("YOUTUBE_PREMIUM_LOGO"@.len() == 20);
    }
    let tlr_path = ["topbar", "desktopTopbarRenderer", "logo", "topbarLogoRenderer"];
    let tlr = get_path(initial_data, tlr_path.as_slice());
    match tlr {
        Some(t) => {
            let icon_path = ["iconImage", "iconType"];
            match get_path(t, icon_path.as_slice()) {
                Some(v) => {
                    match v.as_str() {
                        Some(logo) => {
                            if str_eq(logo, "YOUTUBE_PREMIUM_LOGO") {
                                return true;
                            }
                        },
                        None => {},
                    }
                },
                None => {},
            }
            let tooltip_path = ["tooltipText"];
            match crate::jsonx::get_text(t, tooltip_path.as_slice(), None) {
                Some(text) => {
                    let lowered = crate::chars::ascii_lower(str_chars(text.as_str()).as_slice());
                    contains_sub(lowered.as_slice(), "premium")
                },
                None => false,
            }
        },
        None => false,
    }
}

} // verus!
