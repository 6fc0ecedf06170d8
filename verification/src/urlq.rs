//! URL path extraction and query-string coding, carried out by the url
//! crate behind named results, with the query-string assembly verified.
use vstd::prelude::*;

use crate::chars::{extend_chars, extend_str, spec_join, lemma_join_push};

verus! {

broadcast use vstd::std_specs::vec::group_vec_axioms;

/// The path component of a URL; a function of the URL text alone.
pub uninterp spec fn url_path_of(u: Seq<char>) -> Option<Seq<char>>;

/// Relies on url::Url::parse and Url::path: the path component of an
/// absolute URL; `None` when the text does not parse as one.
#[verifier::external_body]
pub fn url_path(u: &str) -> (r: Option<String>)
    ensures
        (r matches Some(p) ==> url_path_of(u@) == Some(p@)),
        r is None <==> url_path_of(u@) is None,
{
    match url::Url::parse(u) {
        Ok(parsed) => Some(parsed.path().to_string()),
        Err(_) => None,
    }
}

/// The name/value pairs of a URL-encoded form string, in order; a
/// function of the text alone.
pub uninterp spec fn query_pairs_of(s: Seq<char>) -> Seq<(Seq<char>, Seq<char>)>;

/// Relies on url::form_urlencoded::parse: splits a form string on `&`,
/// splits each piece at its first `=`, and percent-decodes both sides,
/// keeping order and duplicates.
#[verifier::external_body]
pub fn parse_query(qs: &str) -> (r: Vec<(String, String)>)
    ensures
        r.deep_view() == query_pairs_of(qs@),
{
    url::form_urlencoded::parse(qs.as_bytes()).into_owned().collect()
}

/// The percent-encoded form of one component; a function of the text alone.
pub uninterp spec fn urlencoded_of(s: Seq<char>) -> Seq<char>;

/// Relies on url::form_urlencoded::byte_serialize: percent-encodes one
/// component the way a form serializer writes it.
#[verifier::external_body]
pub fn urlencode_component(s: &str) -> (r: String)
    ensures
        r@ == urlencoded_of(s@),
{
    url::form_urlencoded::byte_serialize(s.as_bytes()).collect()
}

/// One encoded `name=value` piece.
pub open spec fn spec_encoded_pair(p: (Seq<char>, Seq<char>)) -> Seq<char> {
    urlencoded_of(p.0) + seq!['='] + urlencoded_of(p.1)
}

/// The whole encoded form string: pieces joined by `&`.
pub open spec fn spec_query_string(ps: Seq<(Seq<char>, Seq<char>)>) -> Seq<char> {
    spec_join(ps.map_values(|p: (Seq<char>, Seq<char>)| spec_encoded_pair(p)), seq!['&'])
}

/// Serializes `pairs` as a URL-encoded form string, in order.
#[verifier::loop_isolation(false)]
pub fn convert_to_query_string(pairs: &Vec<(String, String)>) -> (r: String)
    ensures
        r@ == spec_query_string(pairs.deep_view()),
{
    let ghost enc = |p: (Seq<char>, Seq<char>)| spec_encoded_pair(p);
    let mut out: Vec<char> = Vec::new();
    let mut i: usize = 0;
    let n = pairs.len();
    proof {
        assert(pairs.deep_view().take(0).map_values(enc) =~= Seq::<Seq<char>>::empty());
    }
    while i < n
        invariant
            0 <= i <= n,
            n == pairs@.len(),
            out@ == spec_join(pairs.deep_view().take(i as int).map_values(enc), seq!['&']),
        decreases n - i,
    {
        let ghost prefix = pairs.deep_view().take(i as int).map_values(enc);
        let mut piece: Vec<char> = Vec::new();
        let k = urlencode_component(pairs[i].0.as_str());
        extend_str(&mut piece, k.as_str());
        piece.push('=');
        let v = urlencode_component(pairs[i].1.as_str());
        extend_str(&mut piece, v.as_str());
        proof {
            assert(pairs.deep_view()[i as int] == (pairs@[i as int].0@, pairs@[i as int].1@));
            assert(piece@ =~= spec_encoded_pair(pairs.deep_view()[i as int]));
            lemma_join_push(prefix, seq!['&'], piece@);
            assert(pairs.deep_view().take(i + 1).map_values(enc) =~~= prefix.push(piece@));
        }
        if i > 0 {
            out.push('&');
        }
        extend_chars(&mut out, piece.as_slice());
        proof {
            if i == 0 {
                assert(prefix.len() == 0);
                assert(out@ =~= piece@);
            } else {
                assert(prefix.len() > 0);
                assert(out@ =~= spec_join(prefix, seq!['&']) + seq!['&'] + piece@);
            }
        }
        i = i + 1;
    }
    proof {
        assert(pairs.deep_view().take(n as int) =~= pairs.deep_view());
    }
    crate::chars::chars_string(out.as_slice())
}

/// First value bound to `key` among decoded pairs.
pub open spec fn spec_pairs_get(ps: Seq<(Seq<char>, Seq<char>)>, key: Seq<char>) -> Option<
    Seq<char>,
>
    decreases ps.len(),
{
    if ps.len() == 0 {
        None
    } else if ps[0].0 == key {
        Some(ps[0].1)
    } else {
        spec_pairs_get(ps.drop_first(), key)
    }
}

/// The first value bound to `key` in `pairs`.
#[verifier::loop_isolation(false)]
pub fn pairs_get(pairs: &Vec<(String, String)>, key: &str) -> (r: Option<String>)
    ensures
        (r matches Some(v) ==> spec_pairs_get(pairs.deep_view(), key@) == Some(v@)),
        r is None <==> spec_pairs_get(pairs.deep_view(), key@) is None,
{
    let n = pairs.len();
    let mut i: usize = 0;
    proof {
        assert(pairs.deep_view().skip(0) =~= pairs.deep_view());
    }
    while i < n
        invariant
            0 <= i <= n,
            spec_pairs_get(pairs.deep_view(), key@) == spec_pairs_get(
                pairs.deep_view().skip(i as int),
                key@,
            ),
        decreases n - i,
    {
        proof {
            assert(pairs.deep_view().skip(i as int)[0] == pairs.deep_view()[i as int]);
            assert(pairs.deep_view()[i as int] == (pairs@[i as int].0@, pairs@[i as int].1@));
            assert(pairs.deep_view().skip(i as int).drop_first() =~= pairs.deep_view().skip(
                i + 1,
            ));
        }
        if crate::chars::str_eq(pairs[i].0.as_str(), key) {
            return Some(pairs[i].1.clone());
        }
        i = i + 1;
    }
    proof {
        assert(pairs.deep_view().skip(n as int).len() == 0);
    }
    None
}


/// `pairs` with the first binding of `key` replaced by `val`, or with
/// the pair appended when `key` is unbound.
pub open spec fn spec_pairs_set(
    ps: Seq<(Seq<char>, Seq<char>)>,
    key: Seq<char>,
    val: Seq<char>,
) -> Seq<(Seq<char>, Seq<char>)>
    decreases ps.len(),
{
    if ps.len() == 0 {
        seq![(key, val)]
    } else if ps[0].0 == key {
        seq![(key, val)] + ps.drop_first()
    } else {
        seq![ps[0]] + spec_pairs_set(ps.drop_first(), key, val)
    }
}

/// Replaces the first binding of `key` among decoded pairs, or appends it.
#[verifier::loop_isolation(false)]
pub fn pairs_set(pairs: &mut Vec<(String, String)>, key: &str, val: &str)
    ensures
        final(pairs).deep_view() == spec_pairs_set(old(pairs).deep_view(), key@, val@),
{
    let n = pairs.len();
    let mut i: usize = 0;
    proof {
        assert(old(pairs).deep_view().skip(0) =~= old(pairs).deep_view());
    }
    while i < n
        invariant
            0 <= i <= n,
            n == pairs@.len(),
            pairs@ == old(pairs)@,
            forall|j: int| 0 <= j < i ==> (#[trigger] old(pairs).deep_view()[j]).0 != key@,
        decreases n - i,
    {
        proof {
            assert(old(pairs).deep_view()[i as int] == (pairs@[i as int].0@, pairs@[
                i as int].1@));
        }
        if crate::chars::str_eq(pairs[i].0.as_str(), key) {
            pairs.set(i, (String::from_str(key), String::from_str(val)));
            proof {
                lemma_pairs_set_at(old(pairs).deep_view(), key@, val@, i as int);
                assert(pairs.deep_view() =~~= old(pairs).deep_view().update(
                    i as int,
                    (key@, val@),
                ));
            }
            return ;
        }
        i = i + 1;
    }
    pairs.push((String::from_str(key), String::from_str(val)));
    proof {
        lemma_pairs_set_missing(old(pairs).deep_view(), key@, val@);
        assert(pairs.deep_view() =~~= old(pairs).deep_view().push((key@, val@)));
    }
}

/// Setting a key first bound at `i` updates exactly position `i`.
proof fn lemma_pairs_set_at(
    ps: Seq<(Seq<char>, Seq<char>)>,
    key: Seq<char>,
    val: Seq<char>,
    i: int,
)
    requires
        0 <= i < ps.len(),
        ps[i].0 == key,
        forall|j: int| 0 <= j < i ==> (#[trigger] ps[j]).0 != key,
    ensures
        spec_pairs_set(ps, key, val) == ps.update(i, (key, val)),
    decreases i,
{
    if i == 0 {
        assert(seq![(key, val)] + ps.drop_first() =~= ps.update(0, (key, val)));
    } else {
        lemma_pairs_set_at(ps.drop_first(), key, val, i - 1);
        assert(ps.drop_first()[i - 1] == ps[i]);
        assert(seq![ps[0]] + ps.drop_first().update(i - 1, (key, val)) =~= ps.update(
            i,
            (key, val),
        ));
    }
}

/// Setting an unbound key appends the pair.
proof fn lemma_pairs_set_missing(ps: Seq<(Seq<char>, Seq<char>)>, key: Seq<char>, val: Seq<char>)
    requires
        forall|j: int| 0 <= j < ps.len() ==> (#[trigger] ps[j]).0 != key,
    ensures
        spec_pairs_set(ps, key, val) == ps.push((key, val)),
    decreases ps.len(),
{
    if ps.len() == 0 {
        assert(spec_pairs_set(ps, key, val) =~= ps.push((key, val)));
    } else {
        lemma_pairs_set_missing(ps.drop_first(), key, val);
        assert(seq![ps[0]] + ps.drop_first().push((key, val)) =~= ps.push((key, val)));
    }
}

} // verus!
