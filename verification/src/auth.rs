//! Session identifiers and the SAPISID authorization: data-sync-id
//! parsing, session-id mining out of configuration blobs, and the
//! SHA-1-derived `Authorization` tokens.
use vstd::prelude::*;
use vstd::string::StringExecFns;

use crate::chars::{
    chars_string, extend_chars, extend_str, first_sub_index, has_sub, spec_join, spec_u64_dec,
    str_chars, u64_dec, lemma_join_push, find_sub, all_digits, parse_u64, spec_dec_val,
};
use crate::cookies::{spec_cookies_get, Cookie, DomainCookies, SidCookies};
use crate::hashx::{sha1_hex, sha1_of, spec_hex_of};
use crate::jsonx::{spec_find_key, spec_get, spec_get_path, find_key, get_path, JsonVal};
use vstd::utf8::encode_utf8;

verus! {

broadcast use {vstd::std_specs::vec::group_vec_axioms, vstd::seq::group_seq_axioms};

/// What a data-sync-id text means: split at the first `||`; a pair when
/// both halves are filled, only a user-session id when one is, nothing
/// when the text is empty.
pub open spec fn spec_parse_data_sync_id(s: Seq<char>) -> (Option<Seq<char>>, Option<Seq<char>>) {
    if has_sub(s, "||"@) {
        let i = first_sub_index(s, "||"@);
        let first = s.take(i);
        let second = s.skip(i + 2);
        if second.len() > 0 {
            (Some(first), Some(second))
        } else if first.len() > 0 {
            (None, Some(first))
        } else {
            (None, None)
        }
    } else {
        if s.len() > 0 {
            (None, Some(s))
        } else {
            (None, None)
        }
    }
}

/// Splits a data-sync-id into the delegated-session and user-session ids.
pub fn parse_data_sync_id(data_sync_id: &str) -> (r: (Option<String>, Option<String>))
    ensures
        (r.0.deep_view(), r.1.deep_view()) == spec_parse_data_sync_id(data_sync_id@),
{
    let cs = str_chars(data_sync_id);
    proof {
        reveal_strlit("||");
    }
    match find_sub(cs.as_slice(), "||") {
        Some(i) => {
            let mut first: Vec<char> = Vec::new();
            let mut j: usize = 0;
            while j < i
                invariant
                    0 <= j <= i <= cs@.len(),
                    first@ == cs@.take(i as int).take(j as int),
                decreases i - j,
            {
                first.push(cs[j]);
                proof {
                    assert(cs@.take(i as int).take(j as int).push(cs@[j as int]) =~= cs@.take(
                        i as int,
                    ).take(j + 1));
                }
                j = j + 1;
            }
            proof {
                assert(cs@.take(i as int).take(i as int) =~= cs@.take(i as int));
            }
            let n = cs.len();
            let mut second: Vec<char> = Vec::new();
            let mut k: usize = i + 2;
            proof {
                assert(i + 2 <= n);
                assert(second@ =~= cs@.skip(i + 2).take(0));
            }
            while k < n
                invariant
                    i + 2 <= k <= n,
                    n == cs@.len(),
                    second@ == cs@.skip(i + 2).take(k - (i + 2)),
                decreases n - k,
            {
                second.push(cs[k]);
                proof {
                    assert(cs@.skip(i + 2)[k - (i + 2)] == cs@[k as int]);
                    assert(cs@.skip(i + 2).take(k - (i + 2)).push(cs@[k as int]) =~= cs@.skip(
                        i + 2,
                    ).take(k + 1 - (i + 2)));
                }
                k = k + 1;
            }
            proof {
                assert(cs@.skip(i + 2).take(n - (i + 2)) =~= cs@.skip(i + 2));
            }
            if second.len() > 0 {
                (Some(chars_string(first.as_slice())), Some(chars_string(second.as_slice())))
            } else if first.len() > 0 {
                (None, Some(chars_string(first.as_slice())))
            } else {
                (None, None)
            }
        },
        None => {
            if cs.len() > 0 {
                (None, Some(String::from_str(data_sync_id)))
            } else {
                (None, None)
            }
        },
    }
}

/// The data-sync-id one configuration blob offers: a deep search for
/// `DATASYNC_ID`, else the datasync id of its response context.
pub open spec fn spec_dsid_of_config(c: JsonVal) -> Option<Seq<char>> {
    match spec_find_key(c, "DATASYNC_ID"@) {
        Some(s) => Some(s),
        None => match spec_get_path(
            c,
            seq!["responseContext"@, "mainAppWebResponseContext"@, "datasyncId"@],
        ) {
            Some(JsonVal::Str(s)) => Some(s@),
            _ => None,
        },
    }
}

/// First deep string hit for `key` across `configs`, in order.
pub open spec fn spec_find_across(configs: Seq<JsonVal>, key: Seq<char>) -> Option<Seq<char>>
    decreases configs.len(),
{
    if configs.len() == 0 {
        None
    } else if spec_find_key(configs[0], key) is Some {
        spec_find_key(configs[0], key)
    } else {
        spec_find_across(configs.drop_first(), key)
    }
}

/// Searches every configuration blob for a string under `key`.
#[verifier::loop_isolation(false)]
pub fn find_across<'a>(configs: &[&'a JsonVal], key: &str) -> (r: Option<String>)
    ensures
        (r matches Some(s) ==> spec_find_across(configs.deep_view(), key@) == Some(s@)),
        r is None <==> spec_find_across(configs.deep_view(), key@) is None,
{
    let n = configs.len();
    let mut i: usize = 0;
    proof {
        assert(configs.deep_view().skip(0) =~= configs.deep_view());
    }
    while i < n
        invariant
            0 <= i <= n,
            spec_find_across(configs.deep_view(), key@) == spec_find_across(
                configs.deep_view().skip(i as int),
                key@,
            ),
        decreases n - i,
    {
        proof {
            assert(configs.deep_view().skip(i as int)[0] == configs.deep_view()[i as int]);
            assert(configs.deep_view()[i as int] == configs@[i as int].deep_view());
            assert(configs.deep_view().skip(i as int).drop_first() =~= configs.deep_view().skip(
                i + 1,
            ));
        }
        match find_key(configs[i], key) {
            Some(s) => {
                return Some(s);
            },
            None => {},
        }
        i = i + 1;
    }
    proof {
        assert(configs.deep_view().skip(n as int).len() == 0);
    }
    None
}

/// The data-sync-id found across `configs`, in order.
pub open spec fn spec_data_sync_id(configs: Seq<JsonVal>) -> Option<Seq<char>>
    decreases configs.len(),
{
    if configs.len() == 0 {
        None
    } else if spec_dsid_of_config(configs[0]) is Some {
        spec_dsid_of_config(configs[0])
    } else {
        spec_data_sync_id(configs.drop_first())
    }
}

/// Mines the account data-sync-id out of the configuration blobs.
#[verifier::loop_isolation(false)]
pub fn get_data_sync_id<'a>(configs: &[&'a JsonVal]) -> (r: Option<String>)
    ensures
        (r matches Some(s) ==> spec_data_sync_id(configs.deep_view()) == Some(s@)),
        r is None <==> spec_data_sync_id(configs.deep_view()) is None,
{
    let n = configs.len();
    let mut i: usize = 0;
    proof {
        assert(configs.deep_view().skip(0) =~= configs.deep_view());
    }
    while i < n
        invariant
            0 <= i <= n,
            spec_data_sync_id(configs.deep_view()) == spec_data_sync_id(
                configs.deep_view().skip(i as int),
            ),
        decreases n - i,
    {
        proof {
            assert(configs.deep_view().skip(i as int)[0] == configs.deep_view()[i as int]);
            assert(configs.deep_view()[i as int] == configs@[i as int].deep_view());
            assert(configs.deep_view().skip(i as int).drop_first() =~= configs.deep_view().skip(
                i + 1,
            ));
            assert(seq!["responseContext"@, "mainAppWebResponseContext"@, "datasyncId"@]
                =~= ["responseContext", "mainAppWebResponseContext", "datasyncId"].deep_view());
        }
        match find_key(configs[i], "DATASYNC_ID") {
            Some(s) => {
                return Some(s);
            },
            None => {
                let path = ["responseContext", "mainAppWebResponseContext", "datasyncId"];
                match get_path(configs[i], path.as_slice()) {
                    Some(v) => {
                        match v.as_str() {
                            Some(s) => {
                                return Some(String::from_str(s));
                            },
                            None => {},
                        }
                    },
                    None => {},
                }
            },
        }
        i = i + 1;
    }
    proof {
        assert(configs.deep_view().skip(n as int).len() == 0);
    }
    None
}

/// The delegated session id: a deep `DELEGATED_SESSION_ID`, else the
/// first half of the data-sync-id.
pub open spec fn spec_delegated_session_id(configs: Seq<JsonVal>) -> Option<Seq<char>> {
    match spec_find_across(configs, "DELEGATED_SESSION_ID"@) {
        Some(s) => Some(s),
        None => match spec_data_sync_id(configs) {
            Some(d) => spec_parse_data_sync_id(d).0,
            None => None,
        },
    }
}

pub fn get_delegated_session_id<'a>(configs: &[&'a JsonVal]) -> (r: Option<String>)
    ensures
        r.deep_view() == spec_delegated_session_id(configs.deep_view()),
{
    match find_across(configs, "DELEGATED_SESSION_ID") {
        Some(s) => Some(s),
        None => {
            match get_data_sync_id(configs) {
                Some(d) => parse_data_sync_id(d.as_str()).0,
                None => None,
            }
        },
    }
}

/// The user session id: a deep `USER_SESSION_ID`, else the second half
/// of the data-sync-id.
pub open spec fn spec_user_session_id(configs: Seq<JsonVal>) -> Option<Seq<char>> {
    match spec_find_across(configs, "USER_SESSION_ID"@) {
        Some(s) => Some(s),
        None => match spec_data_sync_id(configs) {
            Some(d) => spec_parse_data_sync_id(d).1,
            None => None,
        },
    }
}

pub fn get_user_session_id<'a>(configs: &[&'a JsonVal]) -> (r: Option<String>)
    ensures
        r.deep_view() == spec_user_session_id(configs.deep_view()),
{
    match find_across(configs, "USER_SESSION_ID") {
        Some(s) => Some(s),
        None => {
            match get_data_sync_id(configs) {
                Some(d) => parse_data_sync_id(d.as_str()).1,
                None => None,
            }
        },
    }
}

/// The value of a `SESSION_INDEX` member: its digits, or zero when it is
/// not a digit string that fits.
pub open spec fn spec_session_index_val(v: JsonVal) -> int {
    match v {
        JsonVal::Str(s) => if s@.len() > 0 && all_digits(s@) && spec_dec_val(s@) <= i32::MAX {
            spec_dec_val(s@) as int
        } else {
            0
        },
        _ => 0,
    }
}

/// The account's index in the account list: from the first blob that has
/// a `SESSION_INDEX` member.
pub open spec fn spec_session_index(configs: Seq<JsonVal>) -> Option<int>
    decreases configs.len(),
{
    if configs.len() == 0 {
        None
    } else if spec_get(configs[0], "SESSION_INDEX"@) is Some {
        Some(spec_session_index_val(spec_get(configs[0], "SESSION_INDEX"@)->0))
    } else {
        spec_session_index(configs.drop_first())
    }
}

#[verifier::loop_isolation(false)]
pub fn get_session_index<'a>(configs: &[&'a JsonVal]) -> (r: Option<i32>)
    ensures
        (r matches Some(n) ==> spec_session_index(configs.deep_view()) == Some(n as int)),
        r is None <==> spec_session_index(configs.deep_view()) is None,
{
    let n = configs.len();
    let mut i: usize = 0;
    proof {
        assert(configs.deep_view().skip(0) =~= configs.deep_view());
    }
    while i < n
        invariant
            0 <= i <= n,
            spec_session_index(configs.deep_view()) == spec_session_index(
                configs.deep_view().skip(i as int),
            ),
        decreases n - i,
    {
        proof {
            assert(configs.deep_view().skip(i as int)[0] == configs.deep_view()[i as int]);
            assert(configs.deep_view()[i as int] == configs@[i as int].deep_view());
            assert(configs.deep_view().skip(i as int).drop_first() =~= configs.deep_view().skip(
                i + 1,
            ));
        }
        match configs[i].get("SESSION_INDEX") {
            Some(v) => {
                match v.as_str() {
                    Some(s) => {
                        let cs = str_chars(s);
                        match parse_u64(cs.as_slice()) {
                            Some(x) => {
                                if x <= 0x7fff_ffff {
                                    return Some(x as i32);
                                }
                                return Some(0);
                            },
                            None => {
                                return Some(0);
                            },
                        }
                    },
                    None => {
                        return Some(0);
                    },
                }
            },
            None => {},
        }
        i = i + 1;
    }
    proof {
        assert(configs.deep_view().skip(n as int).len() == 0);
    }
    None
}

/// The SAPISID cookies in slot order: `SAPISID` (with `__Secure-3PAPISID`
/// as stand-in), `__Secure-1PAPISID`, `__Secure-3PAPISID`.
pub fn get_sid_cookies(yt_cookies: &DomainCookies) -> (r: SidCookies)
    ensures
        ({
            let sap = spec_cookies_get(yt_cookies@, "SAPISID"@);
            let p1 = spec_cookies_get(yt_cookies@, "__Secure-1PAPISID"@);
            let p3 = spec_cookies_get(yt_cookies@, "__Secure-3PAPISID"@);
            &&& (r.yt_sapisid matches Some(c) ==> (if sap is Some {
                sap == Some(c@)
            } else {
                p3 == Some(c@)
            }))
            &&& (r.yt_sapisid is None <==> sap is None && p3 is None)
            &&& (r.yt_1psapisid matches Some(c) ==> p1 == Some(c@))
            &&& (r.yt_1psapisid is None <==> p1 is None)
            &&& (r.yt_3psapisid matches Some(c) ==> p3 == Some(c@))
            &&& (r.yt_3psapisid is None <==> p3 is None)
        }),
{
    let yt_sapisid = match yt_cookies.get("SAPISID") {
        Some(c) => Some(c.duplicate()),
        None => match yt_cookies.get("__Secure-3PAPISID") {
            Some(c) => Some(c.duplicate()),
            None => None,
        },
    };
    let yt_1papisid = match yt_cookies.get("__Secure-1PAPISID") {
        Some(c) => Some(c.duplicate()),
        None => None,
    };
    let yt_3papisid = match yt_cookies.get("__Secure-3PAPISID") {
        Some(c) => Some(c.duplicate()),
        None => None,
    };
    SidCookies::new(yt_sapisid, yt_1papisid, yt_3papisid)
}

/// The text hashed for one SAPISID token: the extra values joined by
/// `:` (when any), then timestamp, SAPISID and origin, space-separated.
pub open spec fn spec_sid_hash_input(
    sid: Seq<char>,
    origin: Seq<char>,
    extra_values: Seq<Seq<char>>,
    timestamp: nat,
) -> Seq<char> {
    if extra_values.len() > 0 {
        spec_join(extra_values, ":"@) + seq![' '] + spec_u64_dec(timestamp) + seq![' '] + sid
            + seq![' '] + origin
    } else {
        spec_u64_dec(timestamp) + seq![' '] + sid + seq![' '] + origin
    }
}

/// One emitted token: `<scheme> <ts>_<sha1-hex>[_<concatenated extras>]`.
pub open spec fn spec_make_sid_authorization(
    scheme: Seq<char>,
    sid: Seq<char>,
    origin: Seq<char>,
    extra_values: Seq<Seq<char>>,
    timestamp: nat,
) -> Seq<char> {
    let digest = spec_hex_of(
        sha1_of(encode_utf8(spec_sid_hash_input(sid, origin, extra_values, timestamp))),
    );
    if extra_values.len() > 0 {
        scheme + seq![' '] + spec_u64_dec(timestamp) + seq!['_'] + digest + seq!['_'] + spec_join(
            extra_values,
            Seq::empty(),
        )
    } else {
        scheme + seq![' '] + spec_u64_dec(timestamp) + seq!['_'] + digest
    }
}

/// Law: the timestamp written into the emitted token is the same
/// timestamp that was fed to the SHA-1 hash input.
pub proof fn lemma_sid_token_timestamp(
    scheme: Seq<char>,
    sid: Seq<char>,
    origin: Seq<char>,
    extra_values: Seq<Seq<char>>,
    timestamp: nat,
)
    ensures
        ({
            let token = spec_make_sid_authorization(scheme, sid, origin, extra_values, timestamp);
            let ts = spec_u64_dec(timestamp);
            let hashed = spec_sid_hash_input(sid, origin, extra_values, timestamp);
            let hp: int = if extra_values.len() > 0 {
                spec_join(extra_values, ":"@).len() as int + 1
            } else {
                0
            };
            &&& token.subrange(scheme.len() as int + 1, scheme.len() as int + 1 + ts.len() as int)
                == ts
            &&& hashed.subrange(hp, hp + ts.len() as int) == ts
        }),
{
    let token = spec_make_sid_authorization(scheme, sid, origin, extra_values, timestamp);
    let ts = spec_u64_dec(timestamp);
    let hashed = spec_sid_hash_input(sid, origin, extra_values, timestamp);
    assert(token.subrange(scheme.len() as int + 1, scheme.len() as int + 1 + ts.len() as int)
        =~= ts);
    if extra_values.len() > 0 {
        let hp: int = spec_join(extra_values, ":"@).len() as int + 1;
        assert(hashed.subrange(hp, hp + ts.len() as int) =~= ts);
    } else {
        assert(hashed.subrange(0, ts.len() as int) =~= ts);
    }
}

/// Joins the values of the extra parts with `sep`.
fn join_values(values: &Vec<String>, sep: &str) -> (r: Vec<char>)
    ensures
        r@ == spec_join(values.deep_view(), sep@),
{
    let mut out: Vec<char> = Vec::new();
    let n = values.len();
    let mut i: usize = 0;
    proof {
        assert(values.deep_view().take(0) =~= Seq::<Seq<char>>::empty());
    }
    while i < n
        invariant
            0 <= i <= n,
            n == values@.len(),
            out@ == spec_join(values.deep_view().take(i as int), sep@),
        decreases n - i,
    {
        let ghost prefix = values.deep_view().take(i as int);
        proof {
            lemma_join_push(prefix, sep@, values.deep_view()[i as int]);
            assert(values.deep_view().take(i + 1) =~~= prefix.push(values.deep_view()[i as int]));
            assert(values.deep_view()[i as int] == values@[i as int]@);
        }
        if i > 0 {
            extend_str(&mut out, sep);
        }
        let piece = str_chars(values[i].as_str());
        extend_chars(&mut out, piece.as_slice());
        proof {
            if i == 0 {
                assert(prefix.len() == 0);
                assert(out@ =~= values.deep_view()[i as int]);
            } else {
                assert(prefix.len() > 0);
                assert(out@ =~= spec_join(prefix, sep@) + sep@ + values.deep_view()[i as int]);
            }
        }
        i = i + 1;
    }
    proof {
        assert(values.deep_view().take(n as int) =~= values.deep_view());
    }
    out
}

/// Builds one SAPISID authorization token for `scheme` from the cookie
/// value, the origin, the extra part values and the given unix time.
#[verifier::loop_isolation(false)]
pub fn make_sid_authorization(
    scheme: &str,
    sid: &str,
    origin: &str,
    extra_values: &Vec<String>,
    timestamp: u64,
) -> (r: String)
    ensures
        r@ == spec_make_sid_authorization(
            scheme@,
            sid@,
            origin@,
            extra_values.deep_view(),
            timestamp as nat,
        ),
{
    let ts = u64_dec(timestamp);
    let mut hash_input: Vec<char> = Vec::new();
    if extra_values.len() > 0 {
        let joined = join_values(extra_values, ":");
        extend_chars(&mut hash_input, joined.as_slice());
        hash_input.push(' ');
    }
    extend_str(&mut hash_input, ts.as_str());
    hash_input.push(' ');
    extend_str(&mut hash_input, sid);
    hash_input.push(' ');
    extend_str(&mut hash_input, origin);
    proof {
        if extra_values.deep_view().len() > 0 {
            assert(hash_input@ =~= spec_sid_hash_input(
                sid@,
                origin@,
                extra_values.deep_view(),
                timestamp as nat,
            ));
        } else {
            assert(hash_input@ =~= spec_sid_hash_input(
                sid@,
                origin@,
                extra_values.deep_view(),
                timestamp as nat,
            ));
        }
    }
    let hash_input_str = chars_string(hash_input.as_slice());
    let digest = sha1_hex(hash_input_str.as_str().as_bytes());
    let mut out: Vec<char> = str_chars(scheme);
    out.push(' ');
    extend_str(&mut out, ts.as_str());
    out.push('_');
    extend_str(&mut out, digest.as_str());
    if extra_values.len() > 0 {
        out.push('_');
        let suffix = join_values(extra_values, "");
        extend_chars(&mut out, suffix.as_slice());
        proof {
            assert(""@ =~= Seq::<char>::empty()) by {
                reveal_strlit("");
            }
            assert(out@ =~= spec_make_sid_authorization(
                scheme@,
                sid@,
                origin@,
                extra_values.deep_view(),
                timestamp as nat,
            ));
        }
    } else {
        proof {
            assert(out@ =~= spec_make_sid_authorization(
                scheme@,
                sid@,
                origin@,
                extra_values.deep_view(),
                timestamp as nat,
            ));
        }
    }
    chars_string(out.as_slice())
}

/// The whole `Authorization` value: the present slots' tokens joined by
/// one space, in scheme order.
pub open spec fn spec_sid_authorization_header(
    sap: Option<Seq<char>>,
    p1: Option<Seq<char>>,
    p3: Option<Seq<char>>,
    origin: Seq<char>,
    extra_values: Seq<Seq<char>>,
    timestamp: nat,
) -> Option<Seq<char>> {
    let tokens = (match sap {
        Some(s) => seq![
            spec_make_sid_authorization("SAPISIDHASH"@, s, origin, extra_values, timestamp),
        ],
        None => Seq::empty(),
    }) + (match p1 {
        Some(s) => seq![
            spec_make_sid_authorization("SAPISID1PHASH"@, s, origin, extra_values, timestamp),
        ],
        None => Seq::empty(),
    }) + (match p3 {
        Some(s) => seq![
            spec_make_sid_authorization("SAPISID3PHASH"@, s, origin, extra_values, timestamp),
        ],
        None => Seq::empty(),
    });
    if tokens.len() == 0 {
        None
    } else {
        Some(spec_join(tokens, " "@))
    }
}

/// The cookie values of the slots, as the header builder hashes them.
pub open spec fn spec_sid_value(c: Option<Cookie>) -> Option<Seq<char>> {
    match c {
        Some(cookie) => Some(cookie@.value),
        None => None,
    }
}

/// Builds the `Authorization` header value out of the SAPISID cookies;
/// `None` exactly when no slot is filled.
#[verifier::loop_isolation(false)]
pub fn get_sid_authorization_header(
    sid_cookies: &SidCookies,
    origin: &str,
    user_session_id: Option<&str>,
    timestamp: u64,
) -> (r: Option<String>)
    ensures
        ({
            let extras = match user_session_id {
                Some(u) => seq!["u="@ + u@],
                None => Seq::<Seq<char>>::empty(),
            };
            r.deep_view() == spec_sid_authorization_header(
                spec_sid_value(sid_cookies.yt_sapisid),
                spec_sid_value(sid_cookies.yt_1psapisid),
                spec_sid_value(sid_cookies.yt_3psapisid),
                origin@,
                extras,
                timestamp as nat,
            )
        }),
{
    let mut extra_values: Vec<String> = Vec::new();
    match user_session_id {
        Some(u) => {
            let mut s = String::from_str("u=");
            s.append(u);
            extra_values.push(s);
            proof {
                assert(extra_values.deep_view() =~~= seq!["u="@ + u@]);
            }
        },
        None => {
            proof {
                assert(extra_values.deep_view() =~~= Seq::<Seq<char>>::empty());
            }
        },
    }
    let mut tokens: Vec<String> = Vec::new();
    match &sid_cookies.yt_sapisid {
        Some(c) => {
            tokens.push(
                make_sid_authorization(
                    "SAPISIDHASH",
                    c.value.as_str(),
                    origin,
                    &extra_values,
                    timestamp,
                ),
            );
        },
        None => {},
    }
    match &sid_cookies.yt_1psapisid {
        Some(c) => {
            tokens.push(
                make_sid_authorization(
                    "SAPISID1PHASH",
                    c.value.as_str(),
                    origin,
                    &extra_values,
                    timestamp,
                ),
            );
        },
        None => {},
    }
    match &sid_cookies.yt_3psapisid {
        Some(c) => {
            tokens.push(
                make_sid_authorization(
                    "SAPISID3PHASH",
                    c.value.as_str(),
                    origin,
                    &extra_values,
                    timestamp,
                ),
            );
        },
        None => {},
    }
    proof {
        let extras = match user_session_id {
            Some(u) => seq!["u="@ + u@],
            None => Seq::<Seq<char>>::empty(),
        };
        assert(tokens.deep_view() =~~= (match spec_sid_value(sid_cookies.yt_sapisid) {
            Some(s) => seq![
                spec_make_sid_authorization(
                    "SAPISIDHASH"@,
                    s,
                    origin@,
                    extras,
                    timestamp as nat,
                ),
            ],
            None => Seq::<Seq<char>>::empty(),
        }) + (match spec_sid_value(sid_cookies.yt_1psapisid) {
            Some(s) => seq![
                spec_make_sid_authorization(
                    "SAPISID1PHASH"@,
                    s,
                    origin@,
                    extras,
                    timestamp as nat,
                ),
            ],
            None => Seq::<Seq<char>>::empty(),
        }) + (match spec_sid_value(sid_cookies.yt_3psapisid) {
            Some(s) => seq![
                spec_make_sid_authorization(
                    "SAPISID3PHASH"@,
                    s,
                    origin@,
                    extras,
                    timestamp as nat,
                ),
            ],
            None => Seq::<Seq<char>>::empty(),
        }));
    }
    if tokens.len() == 0 {
        return None;
    }
    let joined = join_values(&tokens, " ");
    Some(chars_string(joined.as_slice()))
}


/// Whether the cookies amount to an authenticated session: a
/// `LOGIN_INFO` cookie together with at least one SAPISID slot.
pub fn has_auth_cookies(yt_cookies: &DomainCookies) -> (r: bool)
    ensures
        r == (spec_cookies_get(yt_cookies@, "LOGIN_INFO"@) is Some && (spec_cookies_get(
            yt_cookies@,
            "SAPISID"@,
        ) is Some || spec_cookies_get(yt_cookies@, "__Secure-1PAPISID"@) is Some
            || spec_cookies_get(yt_cookies@, "__Secure-3PAPISID"@) is Some)),
{
    if !yt_cookies.contains("LOGIN_INFO") {
        return false;
    }
    let sids = get_sid_cookies(yt_cookies);
    sids.yt_sapisid.is_some() || sids.yt_1psapisid.is_some() || sids.yt_3psapisid.is_some()
}


/// The session index rendered for the `X-Goog-AuthUser` header.
pub open spec fn spec_auth_user_text(idx: Option<int>) -> Seq<char> {
    match idx {
        Some(i) => if i >= 0 {
            spec_u64_dec(i as nat)
        } else {
            spec_u64_dec(0)
        },
        None => spec_u64_dec(0),
    }
}

/// The cookie-derived headers of one request: the delegated page id, the
/// account index, the SAPISID authorization with its origin, and the
/// bootstrap flag of a logged-in configuration.
pub open spec fn spec_cookie_auth_headers(
    ytcfg: JsonVal,
    delegated_session_id: Option<Seq<char>>,
    user_session_id: Option<Seq<char>>,
    session_index: Option<int>,
    origin: Seq<char>,
    sap: Option<Seq<char>>,
    p1: Option<Seq<char>>,
    p3: Option<Seq<char>>,
    timestamp: nat,
) -> Seq<(Seq<char>, Seq<char>)> {
    let deleg = if delegated_session_id is Some {
        delegated_session_id
    } else {
        spec_delegated_session_id(seq![ytcfg])
    };
    let idx = if session_index is Some {
        session_index
    } else {
        spec_session_index(seq![ytcfg])
    };
    let usr = if user_session_id is Some {
        user_session_id
    } else {
        spec_user_session_id(seq![ytcfg])
    };
    let extras: Seq<Seq<char>> = match usr {
        Some(u) => seq!["u="@ + u],
        None => Seq::empty(),
    };
    let auth = spec_sid_authorization_header(sap, p1, p3, origin, extras, timestamp);
    (match deleg {
        Some(d) => seq![("X-Goog-PageId"@, d)],
        None => Seq::<(Seq<char>, Seq<char>)>::empty(),
    }) + (if deleg is Some || idx is Some {
        seq![("X-Goog-AuthUser"@, spec_auth_user_text(idx))]
    } else {
        Seq::<(Seq<char>, Seq<char>)>::empty()
    }) + (match auth {
        Some(a) => seq![("Authorization"@, a), ("X-Origin"@, origin)],
        None => Seq::<(Seq<char>, Seq<char>)>::empty(),
    }) + (if spec_get(ytcfg, "LOGGED_IN"@) == Some(JsonVal::Bool(true)) {
        seq![("X-Youtube-Bootstrap-Logged-In"@, "true"@)]
    } else {
        Seq::<(Seq<char>, Seq<char>)>::empty()
    })
}

/// Builds the cookie-derived request headers: explicit session arguments
/// win, the configuration blob fills the gaps, and the SAPISID cookies
/// decide whether an authorization is emitted.
#[verifier::rlimit(60)]
pub fn generate_cookie_auth_headers(
    ytcfg: &JsonVal,
    delegated_session_id: Option<String>,
    user_session_id: Option<String>,
    session_index: Option<i32>,
    origin: &str,
    sid_cookies: &SidCookies,
    timestamp: u64,
) -> (r: Vec<(String, String)>)
    ensures
        r.deep_view() == spec_cookie_auth_headers(
            *ytcfg,
            delegated_session_id.deep_view(),
            user_session_id.deep_view(),
            match session_index {
                Some(i) => Some(i as int),
                None => None,
            },
            origin@,
            spec_sid_value(sid_cookies.yt_sapisid),
            spec_sid_value(sid_cookies.yt_1psapisid),
            spec_sid_value(sid_cookies.yt_3psapisid),
            timestamp as nat,
        ),
{
    let configs = [ytcfg];
    let cs = configs.as_slice();
    proof {
        assert(cs.deep_view() =~~= seq![*ytcfg]);
    }
    let deleg: Option<String> = match delegated_session_id {
        Some(d) => Some(d),
        None => get_delegated_session_id(cs),
    };
    let idx: Option<i32> = match session_index {
        Some(i) => Some(i),
        None => get_session_index(cs),
    };
    let usr: Option<String> = match user_session_id {
        Some(u) => Some(u),
        None => get_user_session_id(cs),
    };
    let mut out: Vec<(String, String)> = Vec::new();
    let has_deleg = deleg.is_some();
    match deleg {
        Some(d) => {
            out.push((String::from_str("X-Goog-PageId"), d));
        },
        None => {},
    }
    if has_deleg || idx.is_some() {
        let n: u64 = match idx {
            Some(i) => if i >= 0 {
                i as u64
            } else {
                0
            },
            None => 0,
        };
        out.push((String::from_str("X-Goog-AuthUser"), u64_dec(n)));
    }
    match get_sid_authorization_header(sid_cookies, origin, match &usr {
        Some(u) => Some(u.as_str()),
        None => None,
    }, timestamp) {
        Some(auth) => {
            out.push((String::from_str("Authorization"), auth));
            out.push((String::from_str("X-Origin"), String::from_str(origin)));
        },
        None => {},
    }
    let logged_in = match ytcfg.get("LOGGED_IN") {
        Some(v) => match v.as_bool() {
            Some(b) => b,
            None => false,
        },
        None => false,
    };
    if logged_in {
        out.push(
            (String::from_str("X-Youtube-Bootstrap-Logged-In"), String::from_str("true")),
        );
    }
    proof {
        assert(out.deep_view() =~~= spec_cookie_auth_headers(
            *ytcfg,
            delegated_session_id.deep_view(),
            user_session_id.deep_view(),
            match session_index {
                Some(i) => Some(i as int),
                None => None,
            },
            origin@,
            spec_sid_value(sid_cookies.yt_sapisid),
            spec_sid_value(sid_cookies.yt_1psapisid),
            spec_sid_value(sid_cookies.yt_3psapisid),
            timestamp as nat,
        ));
    }
    out
}

} // verus!
