//! Player-script identification: the player id, the script fingerprint
//! used as cache key, player URL construction, and the signature
//! timestamp mined from the script.
use vstd::prelude::*;
use vstd::string::StringExecFns;

use crate::chars::{all_digits, parse_u64, spec_dec_val, str_chars};
use crate::err::TydleError;
use crate::jsonx::JsonVal;
use crate::patterns::{regex_capture, regex_group_of};
use crate::urlq::{url_path, url_path_of};

verus! {

/// The first of the three player-id patterns that matches, in order.
pub open spec fn spec_player_info(url: Seq<char>) -> Option<Seq<char>> {
    if regex_group_of(
        "/s/player/(?P<id>[a-zA-Z0-9_-]{8,})/(?:tv-)?player"@,
        url,
        "id"@,
    ) is Some {
        regex_group_of("/s/player/(?P<id>[a-zA-Z0-9_-]{8,})/(?:tv-)?player"@, url, "id"@)
    } else if regex_group_of(
        "/(?P<id>[a-zA-Z0-9_-]{8,})/player(?:_ias\\.vflset(?:/[a-zA-Z]{2,3}_[a-zA-Z]{2,3})?|-plasma-ias-(?:phone|tablet)-[a-z]{2}_[A-Z]{2}\\.vflset)/base\\.js$"@,
        url,
        "id"@,
    ) is Some {
        regex_group_of(
            "/(?P<id>[a-zA-Z0-9_-]{8,})/player(?:_ias\\.vflset(?:/[a-zA-Z]{2,3}_[a-zA-Z]{2,3})?|-plasma-ias-(?:phone|tablet)-[a-z]{2}_[A-Z]{2}\\.vflset)/base\\.js$"@,
            url,
            "id"@,
        )
    } else {
        regex_group_of("\\b(?P<id>vfl[a-zA-Z0-9_-]+)\\b.*?\\.js$"@, url, "id"@)
    }
}

/// Extracts the player id from a player-script URL; fails exactly when no
/// pattern matches.
pub fn extract_player_info(player_url: &str) -> (r: Result<String, TydleError>)
    ensures
        (r matches Ok(s) ==> spec_player_info(player_url@) == Some(s@)),
        r is Err <==> spec_player_info(player_url@) is None,
        (r matches Err(e) ==> e == TydleError::PlayerIdentificationFailed),
{
    match regex_capture("/s/player/(?P<id>[a-zA-Z0-9_-]{8,})/(?:tv-)?player", player_url, "id") {
        Some(id) => Ok(id),
        None => {
            match regex_capture(
                "/(?P<id>[a-zA-Z0-9_-]{8,})/player(?:_ias\\.vflset(?:/[a-zA-Z]{2,3}_[a-zA-Z]{2,3})?|-plasma-ias-(?:phone|tablet)-[a-z]{2}_[A-Z]{2}\\.vflset)/base\\.js$",
                player_url,
                "id",
            ) {
                Some(id) => Ok(id),
                None => {
                    match regex_capture(
                        "\\b(?P<id>vfl[a-zA-Z0-9_-]+)\\b.*?\\.js$",
                        player_url,
                        "id",
                    ) {
                        Some(id) => Ok(id),
                        None => Err(TydleError::PlayerIdentificationFailed),
                    }
                },
            }
        },
    }
}

/// The player id and the URL path of a player-script URL.
pub open spec fn spec_player_id_and_path(url: Seq<char>) -> Option<(Seq<char>, Seq<char>)> {
    match spec_player_info(url) {
        None => None,
        Some(id) => match url_path_of(url) {
            None => None,
            Some(p) => Some((id, p)),
        },
    }
}

/// The script fingerprint: `<player_id>-<url_path>`.
pub open spec fn spec_fingerprint(url: Seq<char>) -> Option<Seq<char>> {
    match spec_player_id_and_path(url) {
        None => None,
        Some(pair) => Some(pair.0 + seq!['-'] + pair.1),
    }
}

/// Law: the fingerprint is a pure function of the player URL; equal URLs
/// fingerprint equally on every invocation.
pub proof fn lemma_fingerprint_deterministic(u1: Seq<char>, u2: Seq<char>)
    requires
        u1 == u2,
    ensures
        spec_fingerprint(u1) == spec_fingerprint(u2),
{
}

/// Extracts the player id and URL path.
pub fn get_player_id_and_path(player_url: &str) -> (r: Result<(String, String), TydleError>)
    ensures
        (r matches Ok(p) ==> spec_player_id_and_path(player_url@) == Some((p.0@, p.1@))),
        r is Err <==> spec_player_id_and_path(player_url@) is None,
        (r matches Err(e) ==> (e == TydleError::PlayerIdentificationFailed || e
            == TydleError::InvalidInput)),
{
    let id = extract_player_info(player_url)?;
    match url_path(player_url) {
        Some(p) => Ok((id, p)),
        None => Err(TydleError::InvalidInput),
    }
}

/// The cache key of a player script: its fingerprint.
pub fn player_js_cache_key(player_url: &str) -> (r: Result<String, TydleError>)
    ensures
        (r matches Ok(s) ==> spec_fingerprint(player_url@) == Some(s@)),
        r is Err <==> spec_fingerprint(player_url@) is None,
{
    let pair = get_player_id_and_path(player_url)?;
    let mut s = pair.0;
    crate::chars::push_char(&mut s, '-');
    let out = s.concat(pair.1.as_str());
    proof {
        assert(spec_player_id_and_path(player_url@) matches Some(p) ==> (p.0.push('-') + p.1
            =~= p.0 + seq!['-'] + p.1));
    }
    Ok(out)
}

/// The variant path of the main player script.
pub open spec fn spec_player_js_main_variant() -> Seq<char> {
    "player_ias.vflset/en_US/base.js"@
}

/// How a player URL is named before construction.
#[derive(Debug)]
pub enum PlayerIdentifier {
    PlayerId(String),
    PlayerUrl(String),
}

/// The absolute player-script URL a player identifier stands for.
pub open spec fn spec_construct_player_url(pi: PlayerIdentifier) -> Seq<char> {
    match pi {
        PlayerIdentifier::PlayerUrl(u) => "https://www.youtube.com"@ + u@,
        PlayerIdentifier::PlayerId(id) => "https://www.youtube.com/s/player/"@ + id@ + seq!['/']
            + spec_player_js_main_variant(),
    }
}

/// Builds the absolute player-script URL: the site origin followed by the
/// given path, or the main-variant path of the given player id.
pub fn construct_player_url(player_identifier: PlayerIdentifier) -> (r: String)
    ensures
        r@ == spec_construct_player_url(player_identifier),
{
    match player_identifier {
        PlayerIdentifier::PlayerUrl(player_url) => {
            let out = String::from_str("https://www.youtube.com").concat(player_url.as_str());
            out
        },
        PlayerIdentifier::PlayerId(player_id) => {
            let mut out = String::from_str("https://www.youtube.com/s/player/");
            out.append(player_id.as_str());
            out.append("/");
            out.append("player_ias.vflset/en_US/base.js");
            proof {
                assert(("https://www.youtube.com/s/player/"@ + player_id@) + "/"@
                    + "player_ias.vflset/en_US/base.js"@ =~= "https://www.youtube.com/s/player/"@
                    + player_id@ + seq!['/'] + spec_player_js_main_variant()) by {
                    reveal_strlit("/");
                }
            }
            out
        },
    }
}

/// The signature timestamp found in player-script code: the five digits
/// after `signatureTimestamp:` or `sts:`.
pub open spec fn spec_sts_of_code(code: Seq<char>) -> Option<int> {
    match regex_group_of(
        "(?:signatureTimestamp|sts)\\s*:\\s*(?P<sts>[0-9]{5})"@,
        code,
        "sts"@,
    ) {
        None => None,
        Some(d) => {
            if d.len() > 0 && all_digits(d) && spec_dec_val(d) <= i64::MAX {
                Some(spec_dec_val(d) as int)
            } else {
                None
            }
        },
    }
}

/// Mines the signature timestamp out of player-script code.
pub fn extract_sts_from_code(code: &str) -> (r: Option<i64>)
    ensures
        (r matches Some(n) ==> spec_sts_of_code(code@) == Some(n as int)),
        r is None <==> spec_sts_of_code(code@) is None,
{
    match regex_capture("(?:signatureTimestamp|sts)\\s*:\\s*(?P<sts>[0-9]{5})", code, "sts") {
        Some(d) => {
            let cs = str_chars(d.as_str());
            match parse_u64(cs.as_slice()) {
                Some(n) => {
                    if n <= 0x7fff_ffff_ffff_ffff {
                        Some(n as i64)
                    } else {
                        None
                    }
                },
                None => None,
            }
        },
        None => None,
    }
}


/// The signature-timestamp precedence: the configuration's `STS` number,
/// else the parsed memo, else whatever the script code yields; a memo
/// that does not parse is a decode error.
pub open spec fn spec_resolve_sts(
    ytcfg: JsonVal,
    memo: Option<Seq<char>>,
    code: Option<Seq<char>>,
) -> Result<Option<int>, TydleError> {
    match crate::jsonx::spec_get(ytcfg, "STS"@) {
        Some(JsonVal::Int(n)) => Ok(Some(n as int)),
        _ => match memo {
            Some(m) => if m.len() > 0 && all_digits(m) && spec_dec_val(m) <= i64::MAX {
                Ok(Some(spec_dec_val(m) as int))
            } else {
                Err(TydleError::DecodeError)
            },
            None => match code {
                Some(c) => Ok(spec_sts_of_code(c)),
                None => Ok(None),
            },
        },
    }
}

/// Decides the signature timestamp from the three possible sources, in
/// the precedence the extraction follows. The caller hands in the memo
/// and, when neither earlier source answers, the downloaded script code.
pub fn resolve_signature_timestamp(ytcfg: &JsonVal, memo: Option<&str>, code: Option<&str>) -> (r:
    Result<Option<i64>, TydleError>)
    ensures
        ({
            let m = match memo {
                Some(t) => Some(t@),
                None => None::<Seq<char>>,
            };
            let co = match code {
                Some(t) => Some(t@),
                None => None::<Seq<char>>,
            };
            let expect = spec_resolve_sts(*ytcfg, m, co);
            &&& (r matches Ok(o) ==> expect matches Ok(eo) && (match o {
                Some(n) => eo == Some(n as int),
                None => eo is None,
            }))
            &&& (r is Err <==> expect is Err)
            &&& (r matches Err(e) ==> expect == Err::<Option<int>, TydleError>(e))
        }),
{
    match ytcfg.get("STS") {
        Some(v) => {
            match v.as_i64() {
                Some(n) => {
                    return Ok(Some(n));
                },
                None => {},
            }
        },
        None => {},
    }
    match memo {
        Some(m) => {
            let cs = str_chars(m);
            match parse_u64(cs.as_slice()) {
                Some(x) => {
                    if x <= 0x7fff_ffff_ffff_ffff {
                        Ok(Some(x as i64))
                    } else {
                        Err(TydleError::DecodeError)
                    }
                },
                None => Err(TydleError::DecodeError),
            }
        },
        None => {
            match code {
                Some(c) => Ok(extract_sts_from_code(c)),
                None => Ok(None),
            }
        },
    }
}

} // verus!
