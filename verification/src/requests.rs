//! Building Innertube requests: object editing, the check-ok parameters,
//! the playback context, the player request body, API URLs and headers.
use vstd::prelude::*;
use vstd::string::StringExecFns;

use crate::chars::u64_dec;
use crate::client::{client_profile, spec_context_client_name, spec_endpoint_name,
    spec_innertube_host, YtClient, YtEndpoint};
use crate::ids::VideoId;
use crate::jsonx::{spec_obj_get, JsonVal};

verus! {

broadcast use {vstd::std_specs::vec::group_vec_axioms, vstd::seq::group_seq_axioms};

/// `entries` with the first binding of `key` replaced by `val`, or with
/// `(key, val)` appended when `key` is unbound.
pub open spec fn spec_obj_set(
    entries: Seq<(String, JsonVal)>,
    key: Seq<char>,
    val: JsonVal,
) -> Seq<(String, JsonVal)>
    decreases entries.len(),
{
    if entries.len() == 0 {
        Seq::empty()
    } else if entries[0].0@ == key {
        seq![(entries[0].0, val)] + entries.drop_first()
    } else {
        seq![entries[0]] + spec_obj_set(entries.drop_first(), key, val)
    }
}

/// The model of setting a member: lookups of `key` now find `val`,
/// other keys are untouched, and the member order is kept.
pub proof fn lemma_obj_set_get(entries: Seq<(String, JsonVal)>, key: Seq<char>, val: JsonVal)
    requires
        spec_obj_get(entries, key) is Some,
    ensures
        spec_obj_get(spec_obj_set(entries, key, val), key) == Some(val),
    decreases entries.len(),
{
    if entries.len() > 0 {
        if entries[0].0@ == key {
            let w = seq![(entries[0].0, val)] + entries.drop_first();
            assert(w[0] == (entries[0].0, val));
        } else {
            lemma_obj_set_get(entries.drop_first(), key, val);
            let w = seq![entries[0]] + spec_obj_set(entries.drop_first(), key, val);
            assert(w[0] == entries[0]);
            assert(w.drop_first() =~= spec_obj_set(entries.drop_first(), key, val));
        }
    }
}

/// Replaces the first binding of `key`, or appends the pair.
#[verifier::loop_isolation(false)]
pub fn obj_set(entries: &mut Vec<(String, JsonVal)>, key: &str, val: JsonVal)
    ensures
        spec_obj_get(old(entries)@, key@) is Some ==> final(entries)@ == spec_obj_set(
            old(entries)@,
            key@,
            val,
        ),
        spec_obj_get(old(entries)@, key@) is None ==> ({
            &&& final(entries)@.len() == old(entries)@.len() + 1
            &&& final(entries)@.take(old(entries)@.len() as int) == old(entries)@
            &&& final(entries)@.last().0@ == key@
            &&& final(entries)@.last().1 == val
        }),
{
    let n = entries.len();
    let mut i: usize = 0;
    proof {
        assert(old(entries)@.skip(0) =~= old(entries)@);
        assert(old(entries)@.take(0) =~= Seq::<(String, JsonVal)>::empty());
    }
    while i < n
        invariant
            0 <= i <= n,
            n == entries@.len(),
            entries@ == old(entries)@,
            spec_obj_get(old(entries)@, key@) == spec_obj_get(old(entries)@.skip(i as int), key@),
            forall|j: int| 0 <= j < i ==> (#[trigger] old(entries)@[j]).0@ != key@,
        decreases n - i,
    {
        proof {
            assert(old(entries)@.skip(i as int)[0] == old(entries)@[i as int]);
            assert(old(entries)@.skip(i as int).drop_first() =~= old(entries)@.skip(i + 1));
        }
        if crate::chars::str_eq(entries[i].0.as_str(), key) {
            let owned_key = entries[i].0.clone();
            entries.set(i, (owned_key, val));
            proof {
                lemma_obj_set_prefix(old(entries)@, key@, val, i as int);
                assert(entries@ =~= old(entries)@.update(
                    i as int,
                    (old(entries)@[i as int].0, val),
                ));
            }
            return ;
        }
        i = i + 1;
    }
    proof {
        assert(old(entries)@.skip(n as int).len() == 0);
    }
    entries.push((String::from_str(key), val));
    proof {
        assert(entries@.take(old(entries)@.len() as int) =~= old(entries)@);
    }
}

/// Setting a key that first occurs at `i` updates exactly position `i`.
proof fn lemma_obj_set_prefix(entries: Seq<(String, JsonVal)>, key: Seq<char>, val: JsonVal, i: int)
    requires
        0 <= i < entries.len(),
        entries[i].0@ == key,
        forall|j: int| 0 <= j < i ==> (#[trigger] entries[j]).0@ != key,
    ensures
        spec_obj_set(entries, key, val) == entries.update(i, (entries[i].0, val)),
    decreases i,
{
    if i == 0 {
        assert(seq![(entries[0].0, val)] + entries.drop_first() =~= entries.update(
            0,
            (entries[0].0, val),
        ));
    } else {
        lemma_obj_set_prefix(entries.drop_first(), key, val, i - 1);
        assert(entries.drop_first()[i - 1] == entries[i]);
        assert(seq![entries[0]] + entries.drop_first().update(i - 1, (entries[i].0, val))
            =~= entries.update(i, (entries[i].0, val)));
    }
}

/// The constant check-ok parameters of a player request.
pub fn generate_checkok_params() -> (r: Vec<(String, JsonVal)>)
    ensures
        r@.len() == 2,
        r@[0].0@ == "contentCheckOk"@,
        r@[0].1 == JsonVal::Bool(true),
        r@[1].0@ == "racyCheckOk"@,
        r@[1].1 == JsonVal::Bool(true),
{
    let mut out: Vec<(String, JsonVal)> = Vec::new();
    out.push((String::from_str("contentCheckOk"), JsonVal::Bool(true)));
    out.push((String::from_str("racyCheckOk"), JsonVal::Bool(true)));
    out
}

/// What the playback context of a player request must hold: the HTML5
/// preference, and the signature timestamp exactly when one is known.
pub open spec fn spec_playback_context_ok(pc: JsonVal, sts: Option<i64>) -> bool {
    pc matches JsonVal::Obj(po) && {
        let cpc = spec_obj_get(po@, "contentPlaybackContext"@);
        &&& po@.len() == 1
        &&& (cpc matches Some(c) && c matches JsonVal::Obj(co) && {
            &&& spec_obj_get(co@, "html5Preference"@) matches Some(h) && h
                matches JsonVal::Str(hs) && hs@ == "HTML5_PREF_WANTS"@
            &&& (sts matches Some(n) ==> spec_obj_get(co@, "signatureTimestamp"@) == Some(
                JsonVal::Int(n),
            ))
            &&& (sts is None ==> spec_obj_get(co@, "signatureTimestamp"@) is None)
        })
    }
}

/// The playback context of a player request: the HTML5 preference and,
/// when known, the signature timestamp, beside both check-ok flags.
pub fn generate_player_context(sts: Option<i64>) -> (r: JsonVal)
    ensures
        (r matches JsonVal::Obj(o) && {
            &&& o@.len() == 3
            &&& o@[0].0@ == "playbackContext"@ && spec_playback_context_ok(o@[0].1, sts)
            &&& o@[1].0@ == "contentCheckOk"@ && o@[1].1 == JsonVal::Bool(true)
            &&& o@[2].0@ == "racyCheckOk"@ && o@[2].1 == JsonVal::Bool(true)
            &&& (spec_obj_get(o@, "playbackContext"@) matches Some(pc)
                && spec_playback_context_ok(pc, sts))
            &&& spec_obj_get(o@, "contentCheckOk"@) == Some(JsonVal::Bool(true))
            &&& spec_obj_get(o@, "racyCheckOk"@) == Some(JsonVal::Bool(true))
        }),
{
    let mut context: Vec<(String, JsonVal)> = Vec::new();
    context.push(
        (String::from_str("html5Preference"), JsonVal::Str(String::from_str("HTML5_PREF_WANTS"))),
    );
    match sts {
        Some(valid_sts) => {
            context.push((String::from_str("signatureTimestamp"), JsonVal::Int(valid_sts)));
        },
        None => {},
    }
    let mut playback: Vec<(String, JsonVal)> = Vec::new();
    playback.push((String::from_str("contentPlaybackContext"), JsonVal::Obj(context)));
    let mut player_context: Vec<(String, JsonVal)> = Vec::new();
    player_context.push((String::from_str("playbackContext"), JsonVal::Obj(playback)));
    let mut checkok = generate_checkok_params();
    let first = checkok.remove(0);
    let second = checkok.remove(0);
    player_context.push(first);
    player_context.push(second);
    proof {
        let o = player_context@;
        reveal_strlit("playbackContext");
        reveal_strlit("contentCheckOk");
        reveal_strlit("racyCheckOk");
        assert(o[0].0@ == "playbackContext"@);
        assert(o[1].0@ == "contentCheckOk"@);
        assert(o[2].0@ == "racyCheckOk"@);
        assert("playbackContext"@.len() == 15);
        assert("contentCheckOk"@.len() == 14);
        assert("racyCheckOk"@.len() == 11);
        lemma_obj_get_at(o, 0, "playbackContext"@);
        lemma_obj_get_at(o, 1, "contentCheckOk"@);
        lemma_obj_get_at(o, 2, "racyCheckOk"@);
        let po = playback@;
        lemma_obj_get_at(po, 0, "contentPlaybackContext"@);
        let co = context@;
        if sts is Some {
            reveal_strlit("html5Preference");
            reveal_strlit("signatureTimestamp");
            assert("html5Preference"@.len() == 15);
            assert("signatureTimestamp"@.len() == 18);
            lemma_obj_get_at(co, 0, "html5Preference"@);
            lemma_obj_get_at(co, 1, "signatureTimestamp"@);
        } else {
            lemma_obj_get_at(co, 0, "html5Preference"@);
            reveal_strlit("html5Preference");
            reveal_strlit("signatureTimestamp");
            assert("html5Preference"@.len() == 15);
            assert("signatureTimestamp"@.len() == 18);
            lemma_obj_get_none(co, "signatureTimestamp"@);
        }
    }
    JsonVal::Obj(player_context)
}

/// The player request body: the video id, an optional proof-of-origin
/// token, the playback context with the signature timestamp, and both
/// check-ok flags.
pub fn build_player_request(video_id: &VideoId, po_token: Option<String>, sts: Option<i64>) -> (r:
    Vec<(String, JsonVal)>)
    ensures
        ({
            &&& spec_obj_get(r@, "videoId"@) matches Some(v)
            &&& spec_obj_get(r@, "videoId"@)->0 matches JsonVal::Str(s) && s@ == video_id@
        }),
        (po_token matches Some(pt) ==> ({
            &&& spec_obj_get(r@, "serviceIntegrityDimensions"@) matches Some(d)
            &&& spec_obj_get(r@, "serviceIntegrityDimensions"@)->0 matches JsonVal::Obj(o) && ({
                &&& o@.len() == 1
                &&& o@[0].0@ == "poToken"@
                &&& o@[0].1 matches JsonVal::Str(t) && t@ == pt@
            })
        })),
        po_token is None ==> spec_obj_get(r@, "serviceIntegrityDimensions"@) is None,
        spec_obj_get(r@, "contentCheckOk"@) == Some(JsonVal::Bool(true)),
        spec_obj_get(r@, "racyCheckOk"@) == Some(JsonVal::Bool(true)),
        (spec_obj_get(r@, "playbackContext"@) matches Some(pc) && spec_playback_context_ok(
            pc,
            sts,
        )),
{
    let has_po = po_token.is_some();
    let mut body: Vec<(String, JsonVal)> = Vec::new();
    let id_text = String::from_str(video_id.as_str());
    body.push((String::from_str("videoId"), JsonVal::Str(id_text)));
    match po_token {
        Some(pt) => {
            let mut dims: Vec<(String, JsonVal)> = Vec::new();
            dims.push((String::from_str("poToken"), JsonVal::Str(pt)));
            body.push((String::from_str("serviceIntegrityDimensions"), JsonVal::Obj(dims)));
        },
        None => {},
    }
    let pc = generate_player_context(sts);
    let mut rest: Vec<(String, JsonVal)> = match pc {
        JsonVal::Obj(extra) => extra,
        _ => {
            proof {
                assert(false);
            }
            Vec::new()
        },
    };
    let third = rest.remove(2);
    let second = rest.remove(1);
    let first = rest.remove(0);
    body.push(first);
    body.push(second);
    body.push(third);
    proof {
        let o = body@;
        reveal_strlit("videoId");
        reveal_strlit("serviceIntegrityDimensions");
        reveal_strlit("playbackContext");
        reveal_strlit("contentCheckOk");
        reveal_strlit("racyCheckOk");
        assert("videoId"@.len() == 7);
        assert("serviceIntegrityDimensions"@.len() == 26);
        assert("playbackContext"@.len() == 15);
        assert("contentCheckOk"@.len() == 14);
        assert("racyCheckOk"@.len() == 11);
        let base: int = if has_po {
            2
        } else {
            1
        };
        assert(o[base].0@ == "playbackContext"@);
        assert(spec_playback_context_ok(o[base].1, sts));
        lemma_obj_get_at(o, 0, "videoId"@);
        if has_po {
            lemma_obj_get_at(o, 1, "serviceIntegrityDimensions"@);
        } else {
            lemma_obj_get_none(o, "serviceIntegrityDimensions"@);
        }
        lemma_obj_get_at(o, base, "playbackContext"@);
        lemma_obj_get_at(o, base + 1, "contentCheckOk"@);
        lemma_obj_get_at(o, base + 2, "racyCheckOk"@);
    }
    body
}

/// A key whose first binding stands at `i` looks up to that binding.
pub proof fn lemma_obj_get_at(entries: Seq<(String, JsonVal)>, i: int, k: Seq<char>)
    requires
        0 <= i < entries.len(),
        entries[i].0@ == k,
        forall|j: int| 0 <= j < i ==> (#[trigger] entries[j]).0@ != k,
    ensures
        spec_obj_get(entries, k) == Some(entries[i].1),
    decreases i,
{
    if i > 0 {
        lemma_obj_get_at(entries.drop_first(), i - 1, k);
        assert(entries.drop_first()[i - 1] == entries[i]);
    }
}

/// A key bound nowhere looks up to nothing.
pub proof fn lemma_obj_get_none(entries: Seq<(String, JsonVal)>, k: Seq<char>)
    requires
        forall|j: int| 0 <= j < entries.len() ==> (#[trigger] entries[j]).0@ != k,
    ensures
        spec_obj_get(entries, k) is None,
    decreases entries.len(),
{
    if entries.len() > 0 {
        lemma_obj_get_none(entries.drop_first(), k);
    }
}

/// The URL of one Innertube endpoint on one host.
pub open spec fn spec_api_url(host: Seq<char>, endpoint: YtEndpoint) -> Seq<char> {
    "https://"@ + host + "/youtubei/v1/"@ + spec_endpoint_name(endpoint)
}

/// Builds `https://<host>/youtubei/v1/<endpoint>`.
pub fn build_api_url(host: &str, endpoint: YtEndpoint) -> (r: String)
    ensures
        r@ == spec_api_url(host@, endpoint),
{
    let mut out = String::from_str("https://");
    out.append(host);
    out.append("/youtubei/v1/");
    out.append(endpoint.as_str());
    proof {
        assert((("https://"@ + host@) + "/youtubei/v1/"@) + spec_endpoint_name(endpoint)
            =~= spec_api_url(host@, endpoint));
    }
    out
}

/// The fixed transport headers of an Innertube call: the client name
/// number, the client version, and the origin.
pub fn generate_base_api_headers(client: YtClient) -> (r: Vec<(String, String)>)
    ensures
        r@.len() == 3,
        r@[0].0@ == "X-YouTube-Client-Name"@,
        r@[0].1@ == crate::chars::spec_u64_dec(
            crate::client::spec_innertube_client_number(client) as nat,
        ),
        r@[1].0@ == "X-YouTube-Client-Version"@,
        r@[1].1@ == crate::client::spec_client_version(client),
        r@[2].0@ == "Origin"@,
        r@[2].1@ == "https://"@ + spec_innertube_host(client),
{
    let profile = client_profile(client);
    let mut out: Vec<(String, String)> = Vec::new();
    let name_num: u64 = if profile.innertube_context_client_name >= 0 {
        profile.innertube_context_client_name as u64
    } else {
        0
    };
    proof {
        assert(name_num as nat == crate::client::spec_innertube_client_number(client) as nat);
    }
    out.push((String::from_str("X-YouTube-Client-Name"), u64_dec(name_num)));
    out.push(
        (String::from_str("X-YouTube-Client-Version"), String::from_str(profile.client_version)),
    );
    let mut origin = String::from_str("https://");
    origin.append(profile.innertube_host);
    out.push((String::from_str("Origin"), origin));
    out
}


/// Setting one key leaves every other key's lookup unchanged.
proof fn lemma_obj_set_other(entries: Seq<(String, JsonVal)>, key: Seq<char>, val: JsonVal)
    ensures
        forall|k: Seq<char>|
            k != key ==> #[trigger] spec_obj_get(spec_obj_set(entries, key, val), k)
                == spec_obj_get(entries, k),
    decreases entries.len(),
{
    if entries.len() > 0 {
        lemma_obj_set_other(entries.drop_first(), key, val);
        assert forall|k: Seq<char>| k != key implies #[trigger] spec_obj_get(
            spec_obj_set(entries, key, val),
            k,
        ) == spec_obj_get(entries, k) by {
            reveal_with_fuel(spec_obj_get, 3);
            assert(spec_obj_get(spec_obj_set(entries.drop_first(), key, val), k) == spec_obj_get(
                entries.drop_first(),
                k,
            ));
            if entries[0].0@ == key {
                let w = seq![(entries[0].0, val)] + entries.drop_first();
                assert(w[0] == (entries[0].0, val));
                assert(w.drop_first() =~= entries.drop_first());
            } else {
                let w = seq![entries[0]] + spec_obj_set(entries.drop_first(), key, val);
                assert(w[0] == entries[0]);
                assert(w.drop_first() =~= spec_obj_set(entries.drop_first(), key, val));
            }
        }
    }
}

/// Appending a pair leaves other keys' lookups unchanged.
proof fn lemma_obj_push_other(entries: Seq<(String, JsonVal)>, p: (String, JsonVal))
    ensures
        forall|k: Seq<char>|
            k != p.0@ ==> #[trigger] spec_obj_get(entries.push(p), k) == spec_obj_get(entries, k),
    decreases entries.len(),
{
    if entries.len() == 0 {
        assert forall|k: Seq<char>| k != p.0@ implies #[trigger] spec_obj_get(entries.push(p), k)
            == spec_obj_get(entries, k) by {
            reveal_with_fuel(spec_obj_get, 3);
            assert(entries.push(p)[0] == p);
            assert(entries.push(p).drop_first() =~= Seq::<(String, JsonVal)>::empty());
        }
    } else {
        lemma_obj_push_other(entries.drop_first(), p);
        assert forall|k: Seq<char>| k != p.0@ implies #[trigger] spec_obj_get(entries.push(p), k)
            == spec_obj_get(entries, k) by {
            reveal_with_fuel(spec_obj_get, 3);
            assert(spec_obj_get(entries.drop_first().push(p), k) == spec_obj_get(
                entries.drop_first(),
                k,
            ));
            assert(entries.push(p)[0] == entries[0]);
            assert(entries.push(p).drop_first() =~= entries.drop_first().push(p));
        }
    }
}

/// Whatever branch `obj_set` takes, other keys' lookups are unchanged
/// and the set key now looks up to the value.
proof fn lemma_obj_set_effect(
    before: Seq<(String, JsonVal)>,
    after: Seq<(String, JsonVal)>,
    key: Seq<char>,
    val: JsonVal,
)
    requires
        spec_obj_get(before, key) is Some ==> after == spec_obj_set(before, key, val),
        spec_obj_get(before, key) is None ==> ({
            &&& after.len() == before.len() + 1
            &&& after.take(before.len() as int) == before
            &&& after.last().0@ == key
            &&& after.last().1 == val
        }),
    ensures
        spec_obj_get(after, key) == Some(val),
        forall|k: Seq<char>|
            k != key ==> #[trigger] spec_obj_get(after, k) == spec_obj_get(before, k),
{
    if spec_obj_get(before, key) is Some {
        lemma_obj_set_get(before, key, val);
        lemma_obj_set_other(before, key, val);
    } else {
        assert(after =~= before.push(after.last()));
        lemma_obj_push_other(before, after.last());
        lemma_obj_get_none_all(before, key);
        lemma_obj_get_at(after, after.len() - 1, key);
    }
}

/// A key that looks up to nothing is bound nowhere.
proof fn lemma_obj_get_none_all(entries: Seq<(String, JsonVal)>, k: Seq<char>)
    requires
        spec_obj_get(entries, k) is None,
    ensures
        forall|j: int| 0 <= j < entries.len() ==> (#[trigger] entries[j]).0@ != k,
    decreases entries.len(),
{
    if entries.len() > 0 {
        lemma_obj_get_none_all(entries.drop_first(), k);
        assert(forall|j: int| 1 <= j < entries.len() ==> entries[j] == entries.drop_first()[j
            - 1]);
    }
}

/// The default Innertube client context of a profile: the client name
/// and version, the user agent when the profile fixes one (the
/// authenticated variant when signed in), the preferred locale, and the
/// profile's extra context fields.
#[verifier::loop_isolation(false)]
pub fn default_client_context(client: YtClient, authenticated: bool) -> (r: Vec<
    (String, JsonVal),
>)
    ensures
        ({
            &&& spec_obj_get(r@, "clientName"@) matches Some(v) && v matches JsonVal::Str(s)
                && s@ == spec_context_client_name(client)
            &&& spec_obj_get(r@, "clientVersion"@) matches Some(v) && v matches JsonVal::Str(s)
                && s@ == crate::client::spec_client_version(client)
        }),
{
    let profile = client_profile(client);
    let mut out: Vec<(String, JsonVal)> = Vec::new();
    out.push(
        (String::from_str("clientName"), JsonVal::Str(String::from_str(
            profile.context_client_name,
        ))),
    );
    out.push(
        (String::from_str("clientVersion"), JsonVal::Str(String::from_str(
            profile.client_version,
        ))),
    );
    let ghost base2 = out@;
    let agent: Option<&'static str> = if authenticated && profile.authenticated_user_agent.is_some() {
        profile.authenticated_user_agent
    } else {
        profile.user_agent
    };
    match agent {
        Some(ua) => {
            out.push((String::from_str("userAgent"), JsonVal::Str(String::from_str(ua))));
        },
        None => {},
    }
    out.push((String::from_str("hl"), JsonVal::Str(String::from_str("en"))));
    let extras = profile.extra_context;
    let n = extras.len();
    let mut i: usize = 0;
    let ghost before_extras = out@;
    while i < n
        invariant
            0 <= i <= n,
            out@.len() >= before_extras.len(),
            out@.take(before_extras.len() as int) == before_extras,
        decreases n - i,
    {
        let pair = extras[i];
        out.push((String::from_str(pair.0), JsonVal::Str(String::from_str(pair.1))));
        proof {
            assert(out@.take(before_extras.len() as int) =~= before_extras);
        }
        i = i + 1;
    }
    proof {
        reveal_strlit("clientName");
        reveal_strlit("clientVersion");
        assert("clientName"@.len() == 10);
        assert("clientVersion"@.len() == 13);
        assert(before_extras.take(base2.len() as int) =~= base2);
        lemma_obj_get_at(base2, 0, "clientName"@);
        lemma_obj_get_at(base2, 1, "clientVersion"@);
        lemma_obj_get_in_prefix(before_extras, base2.len() as int, "clientName"@);
        lemma_obj_get_in_prefix(before_extras, base2.len() as int, "clientVersion"@);
        lemma_obj_get_in_prefix(out@, before_extras.len() as int, "clientName"@);
        lemma_obj_get_in_prefix(out@, before_extras.len() as int, "clientVersion"@);
    }
    out
}

/// A key found within the first `b` entries looks up the same in the
/// whole list as in the prefix.
proof fn lemma_obj_get_in_prefix(entries: Seq<(String, JsonVal)>, b: int, k: Seq<char>)
    requires
        0 <= b <= entries.len(),
        spec_obj_get(entries.take(b), k) is Some,
    ensures
        spec_obj_get(entries, k) == spec_obj_get(entries.take(b), k),
    decreases b,
{
    if b > 0 {
        assert(entries.take(b)[0] == entries[0]);
        if entries[0].0@ == k {
        } else {
            assert(entries.take(b).drop_first() =~= entries.drop_first().take(b - 1));
            lemma_obj_get_in_prefix(entries.drop_first(), b - 1, k);
        }
    }
}

/// Assembles the request context's `client` object: the caller's mined
/// context when it is a non-empty object, else the profile default; the
/// locale, time zone and offset always overwritten.
pub fn select_context(base: Option<JsonVal>, client: YtClient, authenticated: bool) -> (r:
    JsonVal)
    ensures
        (r matches JsonVal::Obj(o) && {
            &&& spec_obj_get(o@, "hl"@) matches Some(h) && h matches JsonVal::Str(s) && s@
                == "en"@
            &&& spec_obj_get(o@, "timeZone"@) matches Some(t) && t matches JsonVal::Str(s) && s@
                == "UTC"@
            &&& spec_obj_get(o@, "utcOffsetMinutes"@) == Some(JsonVal::Int(0))
            &&& (spec_mined_context(base) matches Some(bo) ==> (forall|k: Seq<char>|
                k != "hl"@ && k != "timeZone"@ && k != "utcOffsetMinutes"@
                    ==> #[trigger] spec_obj_get(o@, k) == spec_obj_get(bo, k)))
            &&& (spec_mined_context(base) is None ==> ({
                &&& spec_obj_get(o@, "clientName"@) matches Some(v) && v matches JsonVal::Str(
                    s,
                ) && s@ == spec_context_client_name(client)
                &&& spec_obj_get(o@, "clientVersion"@) matches Some(v) && v
                    matches JsonVal::Str(s) && s@ == crate::client::spec_client_version(client)
            }))
        }),
{
    let mut entries: Vec<(String, JsonVal)> = match base {
        Some(JsonVal::Obj(o)) => {
            if o.len() > 0 {
                o
            } else {
                default_client_context(client, authenticated)
            }
        },
        _ => default_client_context(client, authenticated),
    };
    proof {
        reveal_strlit("clientName");
        reveal_strlit("clientVersion");
        assert("clientName"@.len() == 10);
        assert("clientVersion"@.len() == 13);
        reveal_strlit("hl");
        reveal_strlit("timeZone");
        reveal_strlit("utcOffsetMinutes");
        assert("hl"@.len() == 2);
        assert("timeZone"@.len() == 8);
        assert("utcOffsetMinutes"@.len() == 16);
    }
    let ghost s0 = entries@;
    let hl_val = JsonVal::Str(String::from_str("en"));
    let ghost hl_ghost = hl_val;
    obj_set(&mut entries, "hl", hl_val);
    let ghost s1 = entries@;
    proof {
        lemma_obj_set_effect(s0, s1, "hl"@, hl_ghost);
    }
    let tz_val = JsonVal::Str(String::from_str("UTC"));
    let ghost tz_ghost = tz_val;
    obj_set(&mut entries, "timeZone", tz_val);
    let ghost s2 = entries@;
    proof {
        lemma_obj_set_effect(s1, s2, "timeZone"@, tz_ghost);
    }
    obj_set(&mut entries, "utcOffsetMinutes", JsonVal::Int(0));
    proof {
        lemma_obj_set_effect(s2, entries@, "utcOffsetMinutes"@, JsonVal::Int(0));
    }
    JsonVal::Obj(entries)
}

/// The members the caller's mined context contributes: present exactly
/// when the mined value is a non-empty object.
pub open spec fn spec_mined_context(base: Option<JsonVal>) -> Option<Seq<(String, JsonVal)>> {
    match base {
        Some(JsonVal::Obj(o)) => if o@.len() > 0 {
            Some(o@)
        } else {
            None
        },
        _ => None,
    }
}

} // verus!
