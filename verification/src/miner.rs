//! Mining JSON blobs out of watch-page HTML: the quote-aware
//! balanced-brace scanner and the `ytcfg` / `ytInitialData` /
//! `ytInitialPlayerResponse` extractors.
use vstd::prelude::*;

use crate::err::TydleError;
use crate::jsonx::{json_of, parse_json, JsonVal};
use crate::patterns::{regex_capture, regex_group_of, regex_tail, regex_tail_of};

verus! {

broadcast use vstd::seq::group_seq_axioms;

/// The index of the first `c` in `s`, or -1.
pub open spec fn spec_find_char(s: Seq<char>, c: char) -> int
    decreases s.len(),
{
    if s.len() == 0 {
        -1
    } else if s[0] == c {
        0
    } else if spec_find_char(s.drop_first(), c) < 0 {
        -1
    } else {
        1 + spec_find_char(s.drop_first(), c)
    }
}

pub proof fn lemma_find_char_props(s: Seq<char>, c: char)
    ensures
        spec_find_char(s, c) == -1 ==> (forall|j: int| 0 <= j < s.len() ==> s[j] != c),
        spec_find_char(s, c) != -1 ==> 0 <= spec_find_char(s, c) < s.len() && s[spec_find_char(
            s,
            c,
        )] == c && (forall|j: int| 0 <= j < spec_find_char(s, c) ==> s[j] != c),
    decreases s.len(),
{
    if s.len() > 0 && s[0] != c {
        lemma_find_char_props(s.drop_first(), c);
        assert(forall|j: int| 1 <= j < s.len() ==> s[j] == s.drop_first()[j - 1]);
    }
}

/// One pass of the scanner from position `i` in state
/// `(depth, in_str, escape)`: the position just past the brace that
/// closes the object, if the text balances.
pub open spec fn spec_scan_object(
    s: Seq<char>,
    i: int,
    depth: nat,
    in_str: bool,
    escape: bool,
) -> Option<int>
    decreases s.len() - i,
{
    if i < 0 || i >= s.len() {
        None
    } else {
        let c = s[i];
        if in_str {
            if escape {
                spec_scan_object(s, i + 1, depth, true, false)
            } else if c == '\\' {
                spec_scan_object(s, i + 1, depth, true, true)
            } else if c == '"' {
                spec_scan_object(s, i + 1, depth, false, false)
            } else {
                spec_scan_object(s, i + 1, depth, true, false)
            }
        } else {
            if c == '"' {
                spec_scan_object(s, i + 1, depth, true, false)
            } else if c == '{' {
                spec_scan_object(s, i + 1, depth + 1, false, false)
            } else if c == '}' {
                if depth == 1 {
                    Some(i + 1)
                } else if depth == 0 {
                    None
                } else {
                    spec_scan_object(s, i + 1, (depth - 1) as nat, false, false)
                }
            } else {
                spec_scan_object(s, i + 1, depth, false, false)
            }
        }
    }
}

/// The first balanced JSON object of `s`: from its opening brace to just
/// past its closing brace.
pub open spec fn spec_balanced_object(s: Seq<char>) -> Option<(int, int)> {
    let a = spec_find_char(s, '{');
    if a < 0 {
        None
    } else {
        match spec_scan_object(s, a + 1, 1, false, false) {
            Some(b) => Some((a, b)),
            None => None,
        }
    }
}

/// Finds the first `{`-balanced object, skipping quoted strings and
/// backslash escapes.
#[verifier::loop_isolation(false)]
pub fn balanced_object(v: &[char]) -> (r: Option<(usize, usize)>)
    ensures
        (r matches Some(p) ==> spec_balanced_object(v@) == Some((p.0 as int, p.1 as int))
            && p.0 < p.1 <= v@.len()),
        r is None <==> spec_balanced_object(v@) is None,
{
    let nv = v.len();
    let mut a: usize = 0;
    while a < nv && v[a] != '{'
        invariant
            0 <= a <= nv,
            forall|j: int| 0 <= j < a ==> v@[j] != '{',
        decreases nv - a,
    {
        a = a + 1;
    }
    proof {
        lemma_find_char_props(v@, '{');
        if a < nv {
            assert(spec_find_char(v@, '{') == a as int) by {
                let f = spec_find_char(v@, '{');
                assert(v@[a as int] == '{');
                if f == -1 {
                    assert(v@[a as int] != '{');
                }
                if f < a {
                    assert(v@[f] != '{');
                }
                if f > a {
                    assert(v@[a as int] != '{');
                }
            }
        } else {
            assert(spec_find_char(v@, '{') == -1) by {
                let f = spec_find_char(v@, '{');
                if f != -1 {
                    assert(v@[f] != '{');
                }
            }
        }
    }
    if a >= nv {
        return None;
    }
    let mut i: usize = a + 1;
    let mut depth: usize = 1;
    let mut in_str: bool = false;
    let mut escape: bool = false;
    while i < nv
        invariant
            a + 1 <= i <= nv,
            1 <= depth,
            depth as int <= i - a,
            escape ==> in_str,
            spec_scan_object(v@, a + 1, 1, false, false) == spec_scan_object(
                v@,
                i as int,
                depth as nat,
                in_str,
                escape,
            ),
        decreases nv - i,
    {
        let c = v[i];
        let ghost prev_depth = depth;
        let ghost prev_in_str = in_str;
        let ghost prev_escape = escape;
        proof {
            assert(v@[i as int] == c);
        }
        if in_str {
            if escape {
                escape = false;
            } else if c == '\\' {
                escape = true;
            } else if c == '"' {
                in_str = false;
            }
        } else {
            if c == '"' {
                in_str = true;
            } else if c == '{' {
                depth = depth + 1;
            } else if c == '}' {
                if depth == 1 {
                    return Some((a, i + 1));
                }
                depth = depth - 1;
            }
        }
        proof {
            assert(spec_scan_object(v@, i as int, prev_depth as nat, prev_in_str, prev_escape)
                == spec_scan_object(v@, i + 1, depth as nat, in_str, escape)) by {
                reveal_with_fuel(spec_scan_object, 2);
            }
        }
        i = i + 1;
    }
    None
}

/// What mining one pattern out of the page yields: the first balanced
/// object after the first match of `pattern`, parsed as JSON.
pub open spec fn spec_search_json(pattern: Seq<char>, html: Seq<char>) -> Option<JsonVal> {
    match regex_tail_of(pattern, html) {
        None => None,
        Some(tail) => match spec_balanced_object(tail) {
            None => None,
            Some(ab) => json_of(tail.subrange(ab.0, ab.1)),
        },
    }
}

/// Finds `start_pattern` in `html`, scans the balanced JSON object that
/// follows, and parses it; the empty object on any failure.
pub fn search_json(start_pattern: &str, html: &str) -> (r: JsonVal)
    ensures
        (spec_search_json(start_pattern@, html@) matches Some(w) ==> r == w),
        spec_search_json(start_pattern@, html@) is None ==> (r matches JsonVal::Obj(o)
            && o@.len() == 0),
{
    let empty_members: Vec<(String, JsonVal)> = Vec::new();
    match regex_tail(start_pattern, html) {
        None => JsonVal::Obj(empty_members),
        Some(tail) => {
            let cs = crate::chars::str_chars(tail.as_str());
            match balanced_object(cs.as_slice()) {
                None => JsonVal::Obj(empty_members),
                Some(ab) => {
                    let mut blob: Vec<char> = Vec::new();
                    let mut i: usize = ab.0;
                    while i < ab.1
                        invariant
                            ab.0 <= i <= ab.1 <= cs@.len(),
                            blob@ == cs@.subrange(ab.0 as int, i as int),
                        decreases ab.1 - i,
                    {
                        blob.push(cs[i]);
                        proof {
                            assert(cs@.subrange(ab.0 as int, i as int).push(cs@[i as int])
                                =~= cs@.subrange(ab.0 as int, i + 1));
                        }
                        i = i + 1;
                    }
                    let blob_str = crate::chars::chars_string(blob.as_slice());
                    match parse_json(blob_str.as_str()) {
                        Some(w) => w,
                        None => JsonVal::Obj(empty_members),
                    }
                },
            }
        },
    }
}

/// What the `ytcfg.set({...});` blob of a page parses to.
pub open spec fn spec_ytcfg_blob(html: Seq<char>) -> Option<Seq<char>> {
    regex_group_of("ytcfg\\.set\\s*\\(\\s*(?P<cfg>\\{.+?\\})\\s*\\)\\s*;"@, html, "cfg"@)
}

/// Extracts the page's `ytcfg` object. A page without one yields the
/// empty object; a blob that is not a JSON object fails with a decode
/// error.
pub fn extract_ytcfg(webpage_content: &str) -> (r: Result<JsonVal, TydleError>)
    ensures
        spec_ytcfg_blob(webpage_content@) is None ==> (r matches Ok(v) && v matches JsonVal::Obj(o)
            && o@.len() == 0),
        (spec_ytcfg_blob(webpage_content@) matches Some(blob) ==> (match json_of(blob) {
            Some(JsonVal::Obj(members)) => r == Ok::<JsonVal, TydleError>(
                JsonVal::Obj(members),
            ),
            _ => r == Err::<JsonVal, TydleError>(TydleError::DecodeError),
        })),
{
    let empty_members: Vec<(String, JsonVal)> = Vec::new();
    match regex_capture("ytcfg\\.set\\s*\\(\\s*(?P<cfg>\\{.+?\\})\\s*\\)\\s*;", webpage_content,
        "cfg") {
        None => Ok(JsonVal::Obj(empty_members)),
        Some(blob) => {
            match parse_json(blob.as_str()) {
                Some(v) => {
                    match v {
                        JsonVal::Obj(members) => Ok(JsonVal::Obj(members)),
                        _ => Err(TydleError::DecodeError),
                    }
                },
                None => Err(TydleError::DecodeError),
            }
        },
    }
}

/// What the `ytInitialData` blob of a page is.
pub open spec fn spec_initial_data_blob(html: Seq<char>) -> Option<Seq<char>> {
    regex_group_of(
        "(?:window\\s*\\[\\s*[\"']ytInitialData[\"']\\s*\\]|ytInitialData)\\s*=\\s*(?P<data>\\{.*?\\})\\s*(?:;|</script>)"@,
        html,
        "data"@,
    )
}

/// Extracts the page's `ytInitialData` object; a page without one fails
/// with missing data, a blob that is not a JSON object with a decode
/// error.
pub fn extract_yt_initial_data(webpage_content: &str) -> (r: Result<JsonVal, TydleError>)
    ensures
        spec_initial_data_blob(webpage_content@) is None <==> r == Err::<JsonVal, TydleError>(
            TydleError::DataMissing,
        ),
        (spec_initial_data_blob(webpage_content@) matches Some(blob) ==> (match json_of(blob) {
            Some(JsonVal::Obj(members)) => r == Ok::<JsonVal, TydleError>(
                JsonVal::Obj(members),
            ),
            _ => r == Err::<JsonVal, TydleError>(TydleError::DecodeError),
        })),
{
    match regex_capture(
        "(?:window\\s*\\[\\s*[\"']ytInitialData[\"']\\s*\\]|ytInitialData)\\s*=\\s*(?P<data>\\{.*?\\})\\s*(?:;|</script>)",
        webpage_content,
        "data",
    ) {
        None => Err(TydleError::DataMissing),
        Some(blob) => {
            match parse_json(blob.as_str()) {
                Some(v) => {
                    match v {
                        JsonVal::Obj(members) => Ok(JsonVal::Obj(members)),
                        _ => Err(TydleError::DecodeError),
                    }
                },
                None => Err(TydleError::DecodeError),
            }
        },
    }
}

} // verus!

