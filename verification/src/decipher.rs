//! The signature decipher flow around the embedded solver: parsing the
//! signature query, the per-player memo of deciphered values, signed-URL
//! composition, and the `n`-parameter rewrite.
use vstd::prelude::*;
use vstd::string::StringExecFns;

use crate::cache::{spec_cache_add, CacheStore};
use crate::chars::{
    chars_start_with, chars_string, extend_chars, extend_str, has_prefix, lemma_join_push,
    push_char, spec_join, spec_split, split_char, str_chars,
};
use crate::err::TydleError;
use crate::jsonx::{spec_obj_get, JsonVal};
use crate::playerjs::spec_fingerprint;
use crate::urlq::{parse_query, query_pairs_of, spec_pairs_get, pairs_get};

verus! {

broadcast use {vstd::std_specs::vec::group_vec_axioms, vstd::seq::group_seq_axioms};

/// The two obfuscated parameters the solver transforms.
#[derive(Debug, Clone, Copy, PartialEq, Eq, Structural)]
pub enum SignatureType {
    Nsignature,
    Signature,
}

pub open spec fn spec_signature_type_name(t: SignatureType) -> Seq<char> {
    match t {
        SignatureType::Nsignature => "n"@,
        SignatureType::Signature => "sig"@,
    }
}

impl SignatureType {
    pub fn as_str(&self) -> (r: &'static str)
        ensures
            r@ == spec_signature_type_name(*self),
    {
        match self {
            SignatureType::Nsignature => "n",
            SignatureType::Signature => "sig",
        }
    }
}

/// The memo scope of one signature kind against one player script.
pub open spec fn spec_decipher_scope(t: SignatureType, player_url: Seq<char>) -> Seq<char> {
    spec_signature_type_name(t) + seq!['-'] + player_url
}

/// The two caches the decipher flow shares with the extractor.
pub struct SignatureDecipher {
    pub player_cache: CacheStore<(String, String)>,
    pub code_cache: CacheStore<String>,
}

impl SignatureDecipher {
    pub open spec fn wf(&self) -> bool {
        self.player_cache.wf() && self.code_cache.wf()
    }

    /// Wraps the two caches.
    pub fn new(player_cache: CacheStore<(String, String)>, code_cache: CacheStore<String>) -> (r:
        Self)
        ensures
            r.player_cache@ == player_cache@,
            r.code_cache@ == code_cache@,
            player_cache.wf() && code_cache.wf() ==> r.wf(),
    {
        SignatureDecipher { player_cache, code_cache }
    }

    /// The memoized deciphered value of `encrypted` for this player, when
    /// one was stored.
    pub fn cached_signature(&self, signature_type: SignatureType, encrypted: &str,
        player_url: &str) -> (r: Option<String>)
        requires
            self.wf(),
        ensures
            ({
                let key = (spec_decipher_scope(signature_type, player_url@), encrypted@);
                &&& (r matches Some(v) ==> self.player_cache@.contains_key(key) && v@
                    == self.player_cache@[key])
                &&& (r is None <==> !self.player_cache@.contains_key(key))
            }),
    {
        let scope = decipher_scope(signature_type, player_url);
        let key = (scope, String::from_str(encrypted));
        self.player_cache.get(&key)
    }

    /// Memoizes a deciphered value; the first stored value is kept.
    pub fn store_signature(&mut self, signature_type: SignatureType, encrypted: &str,
        player_url: &str, deciphered: String)
        requires
            old(self).wf(),
        ensures
            final(self).wf(),
            final(self).player_cache@ == spec_cache_add(
                old(self).player_cache@,
                (spec_decipher_scope(signature_type, player_url@), encrypted@),
                deciphered@,
            ),
            final(self).code_cache@ == old(self).code_cache@,
    {
        let scope = decipher_scope(signature_type, player_url);
        let key = (scope, String::from_str(encrypted));
        self.player_cache.add(key, deciphered);
    }

    /// The cached player-script code for this player URL.
    pub fn cached_player_code(&self, player_url: &str) -> (r: Result<Option<String>, TydleError>)
        requires
            self.wf(),
        ensures
            spec_fingerprint(player_url@) is None <==> r is Err,
            (spec_fingerprint(player_url@) matches Some(fp) ==> (r matches Ok(o) && {
                &&& (o matches Some(code) ==> self.code_cache@.contains_key(fp) && code@
                    == self.code_cache@[fp])
                &&& (o is None <==> !self.code_cache@.contains_key(fp))
            })),
    {
        let key = crate::playerjs::player_js_cache_key(player_url)?;
        Ok(self.code_cache.get(&key))
    }

    /// Caches downloaded player-script code under its fingerprint; an
    /// empty download is not stored, as the original fetch failed.
    pub fn store_player_code(&mut self, player_url: &str, code: String) -> (r: Result<
        (),
        TydleError,
    >)
        requires
            old(self).wf(),
        ensures
            final(self).wf(),
            final(self).player_cache@ == old(self).player_cache@,
            spec_fingerprint(player_url@) is None <==> r is Err,
            (spec_fingerprint(player_url@) matches Some(fp) ==> (if code@.len() > 0 {
                final(self).code_cache@ == spec_cache_add(old(self).code_cache@, fp, code@)
            } else {
                final(self).code_cache@ == old(self).code_cache@
            })),
    {
        let key = crate::playerjs::player_js_cache_key(player_url)?;
        if code.unicode_len() > 0 {
            self.code_cache.add(key, code);
        }
        Ok(())
    }
}

fn decipher_scope(signature_type: SignatureType, player_url: &str) -> (r: String)
    ensures
        r@ == spec_decipher_scope(signature_type, player_url@),
{
    let mut s = String::from_str(signature_type.as_str());
    push_char(&mut s, '-');
    let out = s.concat(player_url);
    proof {
        assert(spec_signature_type_name(signature_type).push('-') + player_url@
            =~= spec_decipher_scope(signature_type, player_url@));
    }
    out
}

/// The parsed parts of a signature query: the bare stream URL, the
/// encrypted signature, and the parameter name to sign with.
#[derive(Debug)]
pub struct DecipherRequest {
    pub url: String,
    pub s: String,
    pub sp: String,
}

/// Parses a signature query. Succeeds exactly when the form has both a
/// `url` and an `s` pair; `sp` falls back to `signature`.
pub fn decipher_prepare(signature: &str) -> (r: Result<DecipherRequest, TydleError>)
    ensures
        ({
            let ps = query_pairs_of(signature@);
            &&& (r is Ok <==> spec_pairs_get(ps, "url"@) is Some && spec_pairs_get(ps, "s"@)
                is Some)
            &&& (r matches Ok(q) ==> ({
                &&& spec_pairs_get(ps, "url"@) == Some(q.url@)
                &&& spec_pairs_get(ps, "s"@) == Some(q.s@)
                &&& (match spec_pairs_get(ps, "sp"@) {
                    Some(sp) => q.sp@ == sp,
                    None => q.sp@ == "signature"@,
                })
            }))
            &&& (r matches Err(e) ==> e == TydleError::InvalidInput)
        }),
{
    let pairs = parse_query(signature);
    let url = match pairs_get(&pairs, "url") {
        Some(u) => u,
        None => {
            return Err(TydleError::InvalidInput);
        },
    };
    let enc = match pairs_get(&pairs, "s") {
        Some(x) => x,
        None => {
            return Err(TydleError::InvalidInput);
        },
    };
    let sp = match pairs_get(&pairs, "sp") {
        Some(x) => x,
        None => String::from_str("signature"),
    };
    Ok(DecipherRequest { url, s: enc, sp })
}

/// The signed URL: the stream URL with `&<sp>=<sig>` appended.
pub open spec fn spec_signed_url(url: Seq<char>, sp: Seq<char>, sig: Seq<char>) -> Seq<char> {
    url + seq!['&'] + sp + seq!['='] + sig
}

/// Appends the deciphered signature under its parameter name.
pub fn compose_signed_url(url: &str, sp: &str, sig: &str) -> (r: String)
    ensures
        r@ == spec_signed_url(url@, sp@, sig@),
{
    let mut out: Vec<char> = str_chars(url);
    out.push('&');
    extend_str(&mut out, sp);
    out.push('=');
    extend_str(&mut out, sig);
    proof {
        assert(out@ =~= spec_signed_url(url@, sp@, sig@));
    }
    chars_string(out.as_slice())
}

/// The `n` parameter found in a partially signed URL, read as the form
/// pairs of the whole text.
pub open spec fn spec_n_param(url_with_sig: Seq<char>) -> Option<Seq<char>> {
    spec_pairs_get(query_pairs_of(url_with_sig), "n"@)
}

/// Finds the `n` parameter inside a partially assembled URL.
pub fn find_n_param(url_with_sig: &str) -> (r: Option<String>)
    ensures
        r.deep_view() == spec_n_param(url_with_sig@),
{
    let pairs = parse_query(url_with_sig);
    pairs_get(&pairs, "n")
}

/// One query piece with its `n=` value replaced.
pub open spec fn spec_replace_n_piece(piece: Seq<char>, n: Seq<char>) -> Seq<char> {
    if has_prefix(piece, "n="@) {
        "n="@ + n
    } else {
        piece
    }
}

/// The URL with the value of its `n` query pair replaced; a URL without
/// a query part is unchanged.
pub open spec fn spec_replace_n(url: Seq<char>, n: Seq<char>) -> Seq<char> {
    if !url.contains('?') {
        url
    } else {
        let q = crate::miner::spec_find_char(url, '?');
        let head = url.take(q + 1);
        let tail = url.skip(q + 1);
        head + spec_join(
            spec_split(tail, '&').map_values(|p: Seq<char>| spec_replace_n_piece(p, n)),
            seq!['&'],
        )
    }
}

/// Rewrites the `n` query pair of a signed URL to the deciphered value;
/// other pairs and their order are untouched.
#[verifier::loop_isolation(false)]
pub fn replace_n_sig_query_param(url_with_sig: &str, deciphered_n: &str) -> (r: String)
    ensures
        r@ == spec_replace_n(url_with_sig@, deciphered_n@),
{
    let cs = str_chars(url_with_sig);
    let qpos = crate::chars::find_char(cs.as_slice(), '?');
    proof {
        crate::miner::lemma_find_char_props(cs@, '?');
        let f = crate::miner::spec_find_char(cs@, '?');
        match qpos {
            Some(q) => {
                assert(f == q as int) by {
                    assert(cs@[q as int] == '?');
                    if f == -1 {
                        assert(cs@[q as int] != '?');
                    }
                    if 0 <= f < q {
                        assert(cs@[f] != '?');
                    }
                    if f > q {
                        assert(cs@[q as int] != '?');
                    }
                }
            },
            None => {
                assert(f == -1) by {
                    if f != -1 {
                        assert(cs@.contains('?')) by {
                            assert(cs@[f] == '?');
                        }
                    }
                }
                assert(!cs@.contains('?')) by {
                    if cs@.contains('?') {
                        let w = choose|i: int| 0 <= i < cs@.len() && cs@[i] == '?';
                        assert(cs@[w] == '?');
                    }
                }
            },
        }
    }
    let q = match qpos {
        Some(q) => q,
        None => {
            return String::from_str(url_with_sig);
        },
    };
    let n = cs.len();
    let mut head: Vec<char> = Vec::new();
    let mut i: usize = 0;
    while i < q + 1
        invariant
            0 <= i <= q + 1 <= n,
            n == cs@.len(),
            head@ == cs@.take(q + 1).take(i as int),
        decreases q + 1 - i,
    {
        head.push(cs[i]);
        proof {
            assert(cs@.take(q + 1).take(i as int).push(cs@[i as int]) =~= cs@.take(q + 1).take(
                i + 1,
            ));
        }
        i = i + 1;
    }
    proof {
        assert(cs@.take(q + 1).take(q + 1) =~= cs@.take(q + 1));
    }
    let mut tail: Vec<char> = Vec::new();
    let mut k: usize = q + 1;
    proof {
        assert(tail@ =~= cs@.skip(q + 1).take(0));
    }
    while k < n
        invariant
            q + 1 <= k <= n,
            n == cs@.len(),
            tail@ == cs@.skip(q + 1).take(k - (q + 1)),
        decreases n - k,
    {
        tail.push(cs[k]);
        proof {
            assert(cs@.skip(q + 1)[k - (q + 1)] == cs@[k as int]);
            assert(cs@.skip(q + 1).take(k - (q + 1)).push(cs@[k as int]) =~= cs@.skip(q + 1).take(
                k + 1 - (q + 1),
            ));
        }
        k = k + 1;
    }
    proof {
        assert(cs@.skip(q + 1).take(n - (q + 1)) =~= cs@.skip(q + 1));
    }
    let ghost enc = |p: Seq<char>| spec_replace_n_piece(p, deciphered_n@);
    let pieces = split_char(tail.as_slice(), '&');
    let mut out: Vec<char> = head;
    let m = pieces.len();
    let mut j: usize = 0;
    proof {
        assert(pieces.deep_view().take(0).map_values(enc) =~= Seq::<Seq<char>>::empty());
        assert(out@ =~= cs@.take(q + 1) + spec_join(
            pieces.deep_view().take(0).map_values(enc),
            seq!['&'],
        ));
    }
    while j < m
        invariant
            0 <= j <= m,
            out@ == cs@.take(q + 1) + spec_join(
                pieces.deep_view().take(j as int).map_values(enc),
                seq!['&'],
            ),
        decreases m - j,
    {
        let ghost prefix = pieces.deep_view().take(j as int).map_values(enc);
        proof {
            assert(pieces.deep_view()[j as int] == pieces@[j as int]@);
        }
        let piece: Vec<char> = if chars_start_with(pieces[j].as_slice(), "n=") {
            let mut repl: Vec<char> = Vec::new();
            extend_str(&mut repl, "n=");
            extend_str(&mut repl, deciphered_n);
            proof {
                assert(repl@ =~= "n="@ + deciphered_n@);
            }
            repl
        } else {
            let mut copy: Vec<char> = Vec::new();
            extend_chars(&mut copy, pieces[j].as_slice());
            proof {
                assert(copy@ =~= pieces@[j as int]@);
            }
            copy
        };
        proof {
            lemma_join_push(prefix, seq!['&'], piece@);
            assert(pieces.deep_view().take(j + 1).map_values(enc) =~~= prefix.push(piece@));
        }
        if j > 0 {
            out.push('&');
        }
        extend_chars(&mut out, piece.as_slice());
        proof {
            if j == 0 {
                assert(prefix.len() == 0);
                assert(out@ =~= cs@.take(q + 1) + piece@);
            } else {
                assert(prefix.len() > 0);
                assert(out@ =~= cs@.take(q + 1) + (spec_join(prefix, seq!['&']) + seq!['&']
                    + piece@));
            }
        }
        j = j + 1;
    }
    proof {
        assert(pieces.deep_view().take(m as int) =~= pieces.deep_view());
        assert(spec_split(cs@.skip(q + 1), '&') == pieces.deep_view());
    }
    chars_string(out.as_slice())
}


impl SignatureDecipher {
    /// The memoized signature timestamp of this player script, stored
    /// under the shared `youtube-sts` scope.
    pub fn cached_sts(&self, player_url: &str) -> (r: Result<Option<String>, TydleError>)
        requires
            self.wf(),
        ensures
            spec_fingerprint(player_url@) is None <==> r is Err,
            (spec_fingerprint(player_url@) matches Some(fp) ==> (r matches Ok(o) && {
                let key = ("youtube-sts"@, fp);
                &&& (o matches Some(v) ==> self.player_cache@.contains_key(key) && v@
                    == self.player_cache@[key])
                &&& (o is None <==> !self.player_cache@.contains_key(key))
            })),
    {
        let fp = crate::playerjs::player_js_cache_key(player_url)?;
        let key = (String::from_str("youtube-sts"), fp);
        Ok(self.player_cache.get(&key))
    }

    /// Memoizes the signature timestamp of a player script.
    pub fn store_sts(&mut self, player_url: &str, sts_text: String) -> (r: Result<(), TydleError>)
        requires
            old(self).wf(),
        ensures
            final(self).wf(),
            final(self).code_cache@ == old(self).code_cache@,
            spec_fingerprint(player_url@) is None <==> r is Err,
            (spec_fingerprint(player_url@) matches Some(fp) ==> final(self).player_cache@
                == spec_cache_add(old(self).player_cache@, ("youtube-sts"@, fp), sts_text@)),
    {
        let fp = crate::playerjs::player_js_cache_key(player_url)?;
        let key = (String::from_str("youtube-sts"), fp);
        self.player_cache.add(key, sts_text);
        Ok(())
    }
}


/// Builds the solver's input object: the player code and one challenge
/// request of the given kind, with preprocessed output asked for.
pub fn build_solver_input(player_code: &str, signature_type: SignatureType, example: &str) -> (r:
    Vec<(String, JsonVal)>)
    ensures
        r@.len() == 4,
        ({
            &&& spec_obj_get(r@, "type"@) matches Some(v) && v matches JsonVal::Str(s) && s@
                == "player"@
            &&& spec_obj_get(r@, "player"@) matches Some(v) && v matches JsonVal::Str(s) && s@
                == player_code@
            &&& spec_obj_get(r@, "output_preprocessed"@) == Some(JsonVal::Bool(true))
            &&& spec_obj_get(r@, "requests"@) matches Some(v) && v matches JsonVal::Arr(a) && ({
                &&& a@.len() == 1
                &&& a@[0] matches JsonVal::Obj(ro) && ({
                    &&& spec_obj_get(ro@, "type"@) matches Some(t) && t matches JsonVal::Str(
                        ts,
                    ) && ts@ == spec_signature_type_name(signature_type)
                    &&& spec_obj_get(ro@, "challenges"@) matches Some(c) && c
                        matches JsonVal::Arr(ca) && ({
                        &&& ca@.len() == 1
                        &&& ca@[0] matches JsonVal::Str(cs) && cs@ == example@
                    })
                })
            })
        }),
{
    let mut challenges: Vec<JsonVal> = Vec::new();
    challenges.push(JsonVal::Str(String::from_str(example)));
    let mut request: Vec<(String, JsonVal)> = Vec::new();
    request.push(
        (String::from_str("type"), JsonVal::Str(String::from_str(signature_type.as_str()))),
    );
    request.push((String::from_str("challenges"), JsonVal::Arr(challenges)));
    let mut requests: Vec<JsonVal> = Vec::new();
    requests.push(JsonVal::Obj(request));
    let mut out: Vec<(String, JsonVal)> = Vec::new();
    out.push((String::from_str("type"), JsonVal::Str(String::from_str("player"))));
    out.push((String::from_str("player"), JsonVal::Str(String::from_str(player_code))));
    out.push((String::from_str("requests"), JsonVal::Arr(requests)));
    out.push((String::from_str("output_preprocessed"), JsonVal::Bool(true)));
    proof {
        reveal_strlit("type");
        reveal_strlit("player");
        reveal_strlit("requests");
        reveal_strlit("output_preprocessed");
        reveal_strlit("challenges");
        assert("type"@.len() == 4);
        assert("player"@.len() == 6);
        assert("requests"@.len() == 8);
        assert("output_preprocessed"@.len() == 19);
        assert("challenges"@.len() == 10);
        let o = out@;
        crate::requests::lemma_obj_get_at(o, 0, "type"@);
        crate::requests::lemma_obj_get_at(o, 1, "player"@);
        crate::requests::lemma_obj_get_at(o, 2, "requests"@);
        crate::requests::lemma_obj_get_at(o, 3, "output_preprocessed"@);
        let ro = o[2].1->Arr_0@[0]->Obj_0@;
        crate::requests::lemma_obj_get_at(ro, 0, "type"@);
        crate::requests::lemma_obj_get_at(ro, 1, "challenges"@);
    }
    out
}

/// What the solver's response yields: the string under the example's key
/// in the first response's data; nothing on any other shape.
pub open spec fn spec_solver_result(response: JsonVal, example: Seq<char>) -> Option<Seq<char>> {
    match crate::jsonx::spec_get(response, "responses"@) {
        Some(JsonVal::Arr(a)) => if a@.len() > 0 {
            match crate::jsonx::spec_get(a@[0], "data"@) {
                Some(d) => match crate::jsonx::spec_get(d, example) {
                    Some(JsonVal::Str(s)) => Some(s@),
                    _ => None,
                },
                None => None,
            }
        } else {
            None
        },
        _ => None,
    }
}

/// Reads the deciphered value out of the solver's response; fails with a
/// decipher error exactly when the shape is not the expected one.
pub fn parse_solver_output(response: &JsonVal, example: &str) -> (r: Result<String, TydleError>)
    ensures
        (r matches Ok(s) ==> spec_solver_result(*response, example@) == Some(s@)),
        r is Err <==> spec_solver_result(*response, example@) is None,
        (r matches Err(e) ==> e == TydleError::DecipherFailed),
{
    let responses = match response.get("responses") {
        Some(v) => match v.as_arr() {
            Some(a) => a,
            None => {
                return Err(TydleError::DecipherFailed);
            },
        },
        None => {
            return Err(TydleError::DecipherFailed);
        },
    };
    if responses.len() == 0 {
        return Err(TydleError::DecipherFailed);
    }
    let data = match responses[0].get("data") {
        Some(d) => d,
        None => {
            return Err(TydleError::DecipherFailed);
        },
    };
    match data.get(example) {
        Some(v) => match v.as_str() {
            Some(s) => Ok(String::from_str(s)),
            None => Err(TydleError::DecipherFailed),
        },
        None => Err(TydleError::DecipherFailed),
    }
}

} // verus!
