//! Verified character-level utilities. All textual logic in this crate runs
//! over `Vec<char>` with `Seq<char>` models; these are the shared primitives.
use vstd::prelude::*;

verus! {

broadcast use vstd::std_specs::vec::group_vec_axioms;

/// Relies on std's `String::push`: appends one character at the end.
#[verifier::external_body]
pub fn push_char(s: &mut String, c: char)
    ensures
        final(s)@ == old(s)@.push(c),
{
    s.push(c)
}

/// Copies the characters of `s` into a vector.
pub fn str_chars(s: &str) -> (r: Vec<char>)
    ensures
        r@ == s@,
{
    let n = s.unicode_len();
    let mut r: Vec<char> = Vec::new();
    let mut i: usize = 0;
    while i < n
        invariant
            0 <= i <= n,
            n == s@.len(),
            r@ == s@.take(i as int),
        decreases n - i,
    {
        r.push(s.get_char(i));
        proof {
            assert(s@.take(i as int).push(s@[i as int]) =~= s@.take(i + 1));
        }
        i = i + 1;
    }
    proof {
        assert(s@.take(n as int) =~= s@);
    }
    r
}

/// Builds a `String` out of a character slice.
pub fn chars_string(v: &[char]) -> (r: String)
    ensures
        r@ == v@,
{
    let mut r = String::new();
    let mut i: usize = 0;
    while i < v.len()
        invariant
            0 <= i <= v@.len(),
            r@ == v@.take(i as int),
        decreases v@.len() - i,
    {
        push_char(&mut r, v[i]);
        proof {
            assert(v@.take(i as int).push(v@[i as int]) =~= v@.take(i + 1));
        }
        i = i + 1;
    }
    proof {
        assert(v@.take(v@.len() as int) =~= v@);
    }
    r
}

/// Character-wise equality of two strings.
pub fn str_eq(a: &str, b: &str) -> (r: bool)
    ensures
        r == (a@ == b@),
{
    let na = a.unicode_len();
    let nb = b.unicode_len();
    if na != nb {
        return false;
    }
    let mut i: usize = 0;
    while i < na
        invariant
            0 <= i <= na,
            na == a@.len(),
            na == b@.len(),
            forall|j: int| 0 <= j < i ==> a@[j] == b@[j],
        decreases na - i,
    {
        if a.get_char(i) != b.get_char(i) {
            return false;
        }
        i = i + 1;
    }
    proof {
        assert(a@ =~= b@);
    }
    true
}

/// Character-wise equality of two character slices.
pub fn chars_eq(a: &[char], b: &[char]) -> (r: bool)
    ensures
        r == (a@ == b@),
{
    let na = a.len();
    if na != b.len() {
        return false;
    }
    let mut i: usize = 0;
    while i < na
        invariant
            0 <= i <= na,
            na == a@.len(),
            na == b@.len(),
            forall|j: int| 0 <= j < i ==> a@[j] == b@[j],
        decreases na - i,
    {
        if a[i] != b[i] {
            return false;
        }
        i = i + 1;
    }
    proof {
        assert(a@ =~= b@);
    }
    true
}

/// Character-wise equality of a character vector and a string.
pub fn chars_eq_str(v: &[char], s: &str) -> (r: bool)
    ensures
        r == (v@ == s@),
{
    let n = s.unicode_len();
    if v.len() != n {
        return false;
    }
    let mut i: usize = 0;
    while i < n
        invariant
            0 <= i <= n,
            n == s@.len(),
            n == v@.len(),
            forall|j: int| 0 <= j < i ==> v@[j] == s@[j],
        decreases n - i,
    {
        if v[i] != s.get_char(i) {
            return false;
        }
        i = i + 1;
    }
    proof {
        assert(v@ =~= s@);
    }
    true
}

/// Whether `sub` occurs in `s` starting at index `i`.
pub open spec fn occurs_at(s: Seq<char>, sub: Seq<char>, i: int) -> bool {
    0 <= i && i + sub.len() <= s.len() && s.subrange(i, i + sub.len() as int) == sub
}

/// Whether `sub` occurs anywhere in `s`.
pub open spec fn has_sub(s: Seq<char>, sub: Seq<char>) -> bool {
    exists|i: int| occurs_at(s, sub, i)
}

/// Whether `p` is a prefix of `s`.
pub open spec fn has_prefix(s: Seq<char>, p: Seq<char>) -> bool {
    p.len() <= s.len() && s.take(p.len() as int) == p
}

/// Whether the characters of `v` starting at `i` begin with `p`.
pub fn chars_match_at(v: &[char], p: &str, i: usize) -> (r: bool)
    requires
        i <= v@.len(),
    ensures
        r == occurs_at(v@, p@, i as int),
{
    let nv = v.len();
    let np = p.unicode_len();
    if np > nv - i {
        return false;
    }
    let mut j: usize = 0;
    while j < np
        invariant
            0 <= j <= np,
            np == p@.len(),
            nv == v@.len(),
            i + np <= nv,
            forall|k: int| 0 <= k < j ==> v@[i + k] == p@[k],
        decreases np - j,
    {
        if v[i + j] != p.get_char(j) {
            assert(v@.subrange(i as int, i + np) != p@) by {
                assert(v@.subrange(i as int, i + np)[j as int] != p@[j as int]);
            }
            return false;
        }
        j = j + 1;
    }
    proof {
        assert(v@.subrange(i as int, i + np) =~= p@);
    }
    true
}

/// Whether `v` starts with `p`.
pub fn chars_start_with(v: &[char], p: &str) -> (r: bool)
    ensures
        r == has_prefix(v@, p@),
{
    let np = p.unicode_len();
    if np > v.len() {
        return false;
    }
    let r = chars_match_at(v, p, 0);
    proof {
        assert(v@.subrange(0, np as int) == v@.take(np as int));
    }
    r
}

/// The least index at which `sub` occurs in `s`, if it occurs at all.
pub open spec fn first_sub_index(s: Seq<char>, sub: Seq<char>) -> int {
    choose|i: int| occurs_at(s, sub, i) && (forall|j: int| 0 <= j < i ==> !occurs_at(s, sub, j))
}

/// Finds the least index at which `sub` occurs in `v`.
pub fn find_sub(v: &[char], sub: &str) -> (r: Option<usize>)
    ensures
        (r matches Some(i) ==> occurs_at(v@, sub@, i as int) && (forall|j: int|
            0 <= j < i ==> !occurs_at(v@, sub@, j)) && i as int == first_sub_index(v@, sub@)),
        r is None ==> !has_sub(v@, sub@),
        r is Some <==> has_sub(v@, sub@),
{
    let nv = v.len();
    if sub.unicode_len() == 0 {
        proof {
            assert(v@.subrange(0, 0) =~= sub@);
            assert(occurs_at(v@, sub@, 0));
        }
        return Some(0);
    }
    let mut i: usize = 0;
    while i < nv
        invariant
            0 <= i <= nv,
            nv == v@.len(),
            sub@.len() >= 1,
            forall|j: int| 0 <= j < i ==> !occurs_at(v@, sub@, j),
        decreases nv - i,
    {
        if chars_match_at(v, sub, i) {
            proof {
                let w = i as int;
                assert(occurs_at(v@, sub@, w) && (forall|j: int|
                    0 <= j < w ==> !occurs_at(v@, sub@, j)));
                let c = first_sub_index(v@, sub@);
                assert(occurs_at(v@, sub@, c) && (forall|j: int|
                    0 <= j < c ==> !occurs_at(v@, sub@, j)));
                if c < w {
                    assert(!occurs_at(v@, sub@, c));
                }
                if w < c {
                    assert(!occurs_at(v@, sub@, w));
                }
                assert(c == w);
            }
            return Some(i);
        }
        i = i + 1;
    }
    proof {
        assert(forall|j: int| occurs_at(v@, sub@, j) ==> 0 <= j < v@.len());
    }
    None
}

/// Whether `v` contains `sub`.
pub fn contains_sub(v: &[char], sub: &str) -> (r: bool)
    ensures
        r == has_sub(v@, sub@),
{
    find_sub(v, sub).is_some()
}

/// Finds the least index of character `c` in `v`.
pub fn find_char(v: &[char], c: char) -> (r: Option<usize>)
    ensures
        (r matches Some(i) ==> 0 <= i < v@.len() && v@[i as int] == c && (forall|j: int|
            0 <= j < i ==> v@[j] != c)),
        r is None ==> !v@.contains(c),
        r is Some <==> v@.contains(c),
{
    let mut i: usize = 0;
    while i < v.len()
        invariant
            0 <= i <= v@.len(),
            forall|j: int| 0 <= j < i ==> v@[j] != c,
        decreases v@.len() - i,
    {
        if v[i] == c {
            return Some(i);
        }
        i = i + 1;
    }
    None
}

/// Joins `pieces` with the separator `sep` between consecutive pieces.
pub open spec fn spec_join(pieces: Seq<Seq<char>>, sep: Seq<char>) -> Seq<char>
    decreases pieces.len(),
{
    if pieces.len() == 0 {
        Seq::empty()
    } else if pieces.len() == 1 {
        pieces[0]
    } else {
        pieces[0] + sep + spec_join(pieces.drop_first(), sep)
    }
}

/// Appending one more piece appends one separator and the piece.
pub proof fn lemma_join_push(pieces: Seq<Seq<char>>, sep: Seq<char>, x: Seq<char>)
    ensures
        spec_join(pieces.push(x), sep) == if pieces.len() == 0 {
            x
        } else {
            spec_join(pieces, sep) + sep + x
        },
    decreases pieces.len(),
{
    if pieces.len() == 0 {
        assert(pieces.push(x) =~= seq![x]);
    } else if pieces.len() == 1 {
        assert(pieces.push(x).drop_first() =~= seq![x]);
        assert(pieces.push(x)[0] == pieces[0]);
        assert(spec_join(seq![x], sep) == x);
        assert(spec_join(pieces.push(x), sep) == pieces.push(x)[0] + sep + spec_join(
            pieces.push(x).drop_first(),
            sep,
        ));
    } else {
        lemma_join_push(pieces.drop_first(), sep, x);
        assert(pieces.push(x).drop_first() =~= pieces.drop_first().push(x));
        assert(pieces.push(x)[0] == pieces[0]);
        assert(pieces[0] + sep + (spec_join(pieces.drop_first(), sep) + sep + x) =~= (pieces[0]
            + sep + spec_join(pieces.drop_first(), sep)) + sep + x);
    }
}

/// Splits `v` at every occurrence of `sep`. The result is the unique
/// decomposition: joining it with `sep` restores `v`, and no piece holds `sep`.
pub fn split_char(v: &[char], sep: char) -> (r: Vec<Vec<char>>)
    ensures
        r@.len() >= 1,
        spec_join(r.deep_view(), seq![sep]) == v@,
        forall|i: int| 0 <= i < r@.len() ==> !(#[trigger] r.deep_view()[i]).contains(sep),
        r.deep_view() == spec_split(v@, sep),
{
    let mut done: Vec<Vec<char>> = Vec::new();
    let mut cur: Vec<char> = Vec::new();
    let mut i: usize = 0;
    while i < v.len()
        invariant
            0 <= i <= v@.len(),
            spec_join(done.deep_view().push(cur@), seq![sep]) == v@.take(i as int),
            !cur@.contains(sep),
            forall|k: int| 0 <= k < done@.len() ==> !(#[trigger] done.deep_view()[k]).contains(
                sep,
            ),
        decreases v@.len() - i,
    {
        let c = v[i];
        if c == sep {
            proof {
                lemma_join_push(done.deep_view().push(cur@), seq![sep], Seq::empty());
                assert(done.deep_view().push(cur@).len() > 0);
                assert(v@.take(i as int) + seq![sep] + Seq::<char>::empty() =~= v@.take(i + 1));
            }
            let ghost old_dv = done.deep_view();
            let ghost old_cur = cur@;
            done.push(cur);
            cur = Vec::new();
            proof {
                assert(done.deep_view() =~~= old_dv.push(old_cur));
                assert(done.deep_view().push(cur@) =~~= old_dv.push(old_cur).push(
                    Seq::<char>::empty(),
                ));
            }
        } else {
            proof {
                let dv = done.deep_view();
                lemma_join_push(dv, seq![sep], cur@);
                lemma_join_push(dv, seq![sep], cur@.push(c));
                if dv.len() == 0 {
                    assert(spec_join(dv.push(cur@.push(c)), seq![sep]) =~= v@.take(i as int).push(
                        c,
                    ));
                } else {
                    assert(spec_join(dv, seq![sep]) + seq![sep] + cur@.push(c) =~= (spec_join(
                        dv,
                        seq![sep],
                    ) + seq![sep] + cur@).push(c));
                }
                assert(v@.take(i as int).push(v@[i as int]) =~= v@.take(i + 1));
            }
            cur.push(c);
        }
        i = i + 1;
    }
    let ghost old_dv = done.deep_view();
    let ghost old_cur = cur@;
    done.push(cur);
    proof {
        assert(v@.take(v@.len() as int) =~= v@);
        assert(done.deep_view() =~~= old_dv.push(old_cur));
        assert(forall|k: int|
            0 <= k < done.deep_view().len() ==> !(#[trigger] done.deep_view()[k]).contains(
                sep,
            )) by {
            assert(forall|k: int| 0 <= k < old_dv.len() ==> done.deep_view()[k] == old_dv[k]);
            assert(done.deep_view()[old_dv.len() as int] == old_cur);
        }
        assert(seq![sep][0] == sep);
        lemma_split_props(v@, sep);
        lemma_join_unique(done.deep_view(), spec_split(v@, sep), seq![sep]);
    }
    done
}

/// Splitting `s` at every `sep`: the unique piece list whose join with
/// `sep` is `s` and whose pieces are `sep`-free.
pub open spec fn spec_split(s: Seq<char>, sep: char) -> Seq<Seq<char>>
    decreases s.len(),
{
    if s.len() == 0 {
        seq![Seq::empty()]
    } else if s[0] == sep {
        seq![Seq::<char>::empty()] + spec_split(s.drop_first(), sep)
    } else {
        spec_prepend_first(seq![s[0]], spec_split(s.drop_first(), sep))
    }
}

/// Prefixes the first piece of `ss` with `c`.
pub open spec fn spec_prepend_first(c: Seq<char>, ss: Seq<Seq<char>>) -> Seq<Seq<char>> {
    seq![c + ss[0]] + ss.drop_first()
}

/// `spec_split` is a decomposition: its pieces are `sep`-free and join
/// back to the split text.
pub proof fn lemma_split_props(s: Seq<char>, sep: char)
    ensures
        spec_split(s, sep).len() >= 1,
        spec_join(spec_split(s, sep), seq![sep]) == s,
        forall|i: int|
            0 <= i < spec_split(s, sep).len() ==> !(#[trigger] spec_split(s, sep)[i]).contains(sep),
    decreases s.len(),
{
    if s.len() == 0 {
        assert(spec_join(spec_split(s, sep), seq![sep]) =~= s);
        assert(forall|i: int|
            0 <= i < spec_split(s, sep).len() ==> !(#[trigger] spec_split(s, sep)[i]).contains(
                sep,
            ));
    } else {
        lemma_split_props(s.drop_first(), sep);
        let t = spec_split(s.drop_first(), sep);
        if s[0] == sep {
            let w = seq![Seq::<char>::empty()] + t;
            assert(w.drop_first() =~= t);
            assert(spec_join(w, seq![sep]) == Seq::<char>::empty() + seq![sep] + spec_join(
                t,
                seq![sep],
            ));
            assert(Seq::<char>::empty() + seq![sep] + s.drop_first() =~= s);
            assert(forall|i: int| 0 <= i < w.len() ==> !(#[trigger] w[i]).contains(sep)) by {
                assert(forall|i: int| 1 <= i < w.len() ==> w[i] == t[i - 1]);
            }
        } else {
            let w = spec_prepend_first(seq![s[0]], t);
            assert(w[0] == seq![s[0]] + t[0]);
            assert(w.drop_first() =~= t.drop_first());
            if t.len() == 1 {
                assert(w =~= seq![seq![s[0]] + t[0]]);
                assert(spec_join(w, seq![sep]) == seq![s[0]] + t[0]);
                assert(seq![s[0]] + spec_join(t, seq![sep]) =~= s);
                assert(spec_join(t, seq![sep]) == t[0]);
            } else {
                assert(spec_join(w, seq![sep]) == w[0] + seq![sep] + spec_join(
                    w.drop_first(),
                    seq![sep],
                ));
                assert(spec_join(t, seq![sep]) == t[0] + seq![sep] + spec_join(
                    t.drop_first(),
                    seq![sep],
                ));
                assert((seq![s[0]] + t[0]) + seq![sep] + spec_join(t.drop_first(), seq![sep])
                    =~= seq![s[0]] + (t[0] + seq![sep] + spec_join(t.drop_first(), seq![sep])));
                assert(seq![s[0]] + s.drop_first() =~= s);
            }
            assert(!w[0].contains(sep)) by {
                assert(forall|j: int| 0 <= j < w[0].len() ==> w[0][j] != sep) by {
                    assert(forall|j: int| 1 <= j < w[0].len() ==> w[0][j] == t[0][j - 1]);
                }
            }
            assert(forall|i: int| 0 <= i < w.len() ==> !(#[trigger] w[i]).contains(sep)) by {
                assert(forall|i: int| 1 <= i < w.len() ==> w[i] == t[i]);
            }
        }
    }
}

/// A join of `sep`-head-free pieces decomposes uniquely: two piece lists
/// with the same join are the same list.
pub proof fn lemma_join_unique(ps: Seq<Seq<char>>, qs: Seq<Seq<char>>, sep: Seq<char>)
    requires
        sep.len() >= 1,
        ps.len() >= 1,
        qs.len() >= 1,
        spec_join(ps, sep) == spec_join(qs, sep),
        forall|i: int| 0 <= i < ps.len() ==> !(#[trigger] ps[i]).contains(sep[0]),
        forall|i: int| 0 <= i < qs.len() ==> !(#[trigger] qs[i]).contains(sep[0]),
    ensures
        ps =~~= qs,
    decreases ps.len(),
{
    let total = spec_join(ps, sep);
    if ps.len() == 1 && qs.len() == 1 {
        assert(ps[0] == qs[0]);
        assert(ps =~~= qs);
    } else if ps.len() == 1 {
        assert(spec_join(qs, sep) == qs[0] + sep + spec_join(qs.drop_first(), sep));
        assert(total[qs[0].len() as int] == sep[0]);
        assert(ps[0].contains(sep[0])) by {
            assert(ps[0][qs[0].len() as int] == sep[0]);
        }
    } else if qs.len() == 1 {
        assert(spec_join(ps, sep) == ps[0] + sep + spec_join(ps.drop_first(), sep));
        assert(total[ps[0].len() as int] == sep[0]);
        assert(qs[0].contains(sep[0])) by {
            assert(qs[0][ps[0].len() as int] == sep[0]);
        }
    } else {
        let a = ps[0];
        let b = qs[0];
        let ta = spec_join(ps.drop_first(), sep);
        let tb = spec_join(qs.drop_first(), sep);
        assert(total == a + sep + ta);
        assert(spec_join(qs, sep) == b + sep + tb);
        if a.len() < b.len() {
            assert(b[a.len() as int] == total[a.len() as int]);
            assert(total[a.len() as int] == sep[0]);
            assert(b.contains(sep[0]));
        } else if b.len() < a.len() {
            assert(a[b.len() as int] == total[b.len() as int]);
            assert(total[b.len() as int] == sep[0]);
            assert(a.contains(sep[0]));
        } else {
            assert(a =~= b) by {
                assert(forall|j: int| 0 <= j < a.len() ==> a[j] == total[j] && b[j] == total[j]);
            }
            assert(ta =~= tb) by {
                assert(ta.len() == tb.len());
                assert(forall|j: int|
                    0 <= j < ta.len() ==> ta[j] == total[a.len() + sep.len() + j] && tb[j] == total[
                        a.len() + sep.len() + j]);
            }
            lemma_join_unique(ps.drop_first(), qs.drop_first(), sep);
            assert(ps.len() == qs.len());
            assert(forall|i: int| 1 <= i < ps.len() ==> ps[i] == ps.drop_first()[i - 1]);
            assert(forall|i: int| 1 <= i < qs.len() ==> qs[i] == qs.drop_first()[i - 1]);
        }
    }
}

/// Whether `c` is an ASCII whitespace character this crate trims.
pub open spec fn spec_is_ws(c: char) -> bool {
    c == ' ' || c == '\t' || c == '\r' || c == '\n'
}

pub fn is_ws(c: char) -> (r: bool)
    ensures
        r == spec_is_ws(c),
{
    c == ' ' || c == '\t' || c == '\r' || c == '\n'
}

/// What is left of `s` after dropping leading whitespace.
pub open spec fn spec_trim_front(s: Seq<char>) -> Seq<char>
    decreases s.len(),
{
    if s.len() > 0 && spec_is_ws(s[0]) {
        spec_trim_front(s.drop_first())
    } else {
        s
    }
}

/// What is left of `s` after dropping trailing whitespace.
pub open spec fn spec_trim_back(s: Seq<char>) -> Seq<char>
    decreases s.len(),
{
    if s.len() > 0 && spec_is_ws(s.last()) {
        spec_trim_back(s.drop_last())
    } else {
        s
    }
}

/// `s` without leading and trailing ASCII whitespace.
pub open spec fn spec_trim(s: Seq<char>) -> Seq<char> {
    spec_trim_back(spec_trim_front(s))
}

proof fn lemma_trim_front_skip(s: Seq<char>, a: int)
    requires
        0 <= a <= s.len(),
        forall|j: int| 0 <= j < a ==> spec_is_ws(#[trigger] s[j]),
        a == s.len() || !spec_is_ws(s[a]),
    ensures
        spec_trim_front(s) == s.skip(a),
    decreases a,
{
    if a == 0 {
        assert(s.skip(0) =~= s);
    } else {
        lemma_trim_front_skip(s.drop_first(), a - 1);
        assert(s.drop_first().skip(a - 1) =~= s.skip(a));
    }
}

proof fn lemma_trim_back_take(s: Seq<char>, b: int)
    requires
        0 <= b <= s.len(),
        forall|j: int| b <= j < s.len() ==> spec_is_ws(#[trigger] s[j]),
        b == 0 || !spec_is_ws(s[b - 1]),
    ensures
        spec_trim_back(s) == s.take(b),
    decreases s.len() - b,
{
    if b == s.len() {
        assert(s.take(b) =~= s);
    } else {
        lemma_trim_back_take(s.drop_last(), b);
        assert(s.drop_last().take(b) =~= s.take(b));
    }
}

/// Removes leading and trailing ASCII whitespace.
pub fn trim_chars(v: &[char]) -> (r: Vec<char>)
    ensures
        r@ == spec_trim(v@),
{
    let nv = v.len();
    let mut a: usize = 0;
    while a < nv && is_ws(v[a])
        invariant
            0 <= a <= nv,
            nv == v@.len(),
            forall|j: int| 0 <= j < a ==> spec_is_ws(#[trigger] v@[j]),
        decreases nv - a,
    {
        a = a + 1;
    }
    let mut b: usize = nv;
    while b > a && is_ws(v[b - 1])
        invariant
            a <= b <= nv,
            nv == v@.len(),
            forall|j: int| b <= j < v@.len() ==> spec_is_ws(#[trigger] v@[j]),
        decreases b,
    {
        b = b - 1;
    }
    proof {
        lemma_trim_front_skip(v@, a as int);
        assert(forall|j: int|
            b - a <= j < v@.skip(a as int).len() ==> spec_is_ws(
                #[trigger] v@.skip(a as int)[j],
            )) by {
            assert(forall|j: int|
                b - a <= j < v@.skip(a as int).len() ==> v@.skip(a as int)[j] == v@[a + j]);
        }
        if b > a {
            assert(v@.skip(a as int)[b - a - 1] == v@[b - 1]);
        }
        lemma_trim_back_take(v@.skip(a as int), b - a);
        assert(v@.skip(a as int).take(b - a) =~= v@.subrange(a as int, b as int));
    }
    let mut r: Vec<char> = Vec::new();
    let mut i: usize = a;
    while i < b
        invariant
            a <= i <= b <= v@.len(),
            r@ == v@.subrange(a as int, i as int),
        decreases b - i,
    {
        r.push(v[i]);
        proof {
            assert(v@.subrange(a as int, i as int).push(v@[i as int]) =~= v@.subrange(
                a as int,
                i + 1,
            ));
        }
        i = i + 1;
    }
    r
}

/// The decimal digit characters.
pub open spec fn spec_digit_char(d: nat) -> char {
    if d == 0 {
        '0'
    } else if d == 1 {
        '1'
    } else if d == 2 {
        '2'
    } else if d == 3 {
        '3'
    } else if d == 4 {
        '4'
    } else if d == 5 {
        '5'
    } else if d == 6 {
        '6'
    } else if d == 7 {
        '7'
    } else if d == 8 {
        '8'
    } else {
        '9'
    }
}

/// The decimal rendering of `n`, most significant digit first.
pub open spec fn spec_u64_dec(n: nat) -> Seq<char>
    decreases n,
{
    if n < 10 {
        seq![spec_digit_char(n)]
    } else {
        spec_u64_dec(n / 10).push(spec_digit_char(n % 10))
    }
}

/// The character for one decimal digit.
pub fn digit_char(d: u64) -> (r: char)
    requires
        d < 10,
    ensures
        r == spec_digit_char(d as nat),
{
    if d == 0 {
        '0'
    } else if d == 1 {
        '1'
    } else if d == 2 {
        '2'
    } else if d == 3 {
        '3'
    } else if d == 4 {
        '4'
    } else if d == 5 {
        '5'
    } else if d == 6 {
        '6'
    } else if d == 7 {
        '7'
    } else if d == 8 {
        '8'
    } else {
        '9'
    }
}

/// Renders `n` in decimal.
pub fn u64_dec(n: u64) -> (r: String)
    ensures
        r@ == spec_u64_dec(n as nat),
    decreases n,
{
    if n < 10 {
        let mut s = String::new();
        push_char(&mut s, digit_char(n));
        proof {
            assert(Seq::<char>::empty().push(spec_digit_char(n as nat)) =~= seq![
                spec_digit_char(n as nat),
            ]);
        }
        s
    } else {
        let mut s = u64_dec(n / 10);
        push_char(&mut s, digit_char(n % 10));
        s
    }
}

/// Whether `c` is a decimal digit.
pub open spec fn spec_is_digit(c: char) -> bool {
    ('0' as u32) <= (c as u32) <= ('9' as u32)
}

pub fn is_digit(c: char) -> (r: bool)
    ensures
        r == spec_is_digit(c),
{
    let u = c as u32;
    48 <= u && u <= 57
}

/// The numeric value of a digit character.
pub open spec fn spec_digit_val(c: char) -> nat {
    ((c as u32) - ('0' as u32)) as nat
}

/// The value of a digit string, most significant digit first.
pub open spec fn spec_dec_val(s: Seq<char>) -> nat
    decreases s.len(),
{
    if s.len() == 0 {
        0
    } else {
        spec_dec_val(s.drop_last()) * 10 + spec_digit_val(s.last())
    }
}

/// Whether every character of `s` is a decimal digit.
pub open spec fn all_digits(s: Seq<char>) -> bool {
    forall|i: int| 0 <= i < s.len() ==> spec_is_digit(#[trigger] s[i])
}

/// Parses a decimal digit string. Returns its value exactly when `v` is
/// non-empty, all digits, and the value fits in a `u64`; `None` otherwise.
pub fn parse_u64(v: &[char]) -> (r: Option<u64>)
    ensures
        (r matches Some(n) ==> v@.len() > 0 && all_digits(v@) && n as nat == spec_dec_val(v@)),
        r is Some <==> (v@.len() > 0 && all_digits(v@) && spec_dec_val(v@) <= u64::MAX),
{
    if v.len() == 0 {
        return None;
    }
    let mut acc: u64 = 0;
    let mut i: usize = 0;
    while i < v.len()
        invariant
            0 <= i <= v@.len(),
            all_digits(v@.take(i as int)),
            acc as nat == spec_dec_val(v@.take(i as int)),
        decreases v@.len() - i,
    {
        let c = v[i];
        if !is_digit(c) {
            assert(!all_digits(v@)) by {
                assert(!spec_is_digit(v@[i as int]));
            }
            return None;
        }
        let d = (c as u32) as u64 - 48;
        let next = match acc.checked_mul(10) {
            Some(m) => m.checked_add(d),
            None => None,
        };
        proof {
            assert(v@.take(i as int).push(v@[i as int]) =~= v@.take(i + 1));
            assert(v@.take(i + 1).drop_last() =~= v@.take(i as int));
        }
        match next {
            Some(m) => {
                acc = m;
            },
            None => {
                proof {
                    lemma_dec_val_prefix_overflow(v@, i as int);
                }
                return None;
            },
        }
        i = i + 1;
    }
    proof {
        assert(v@.take(v@.len() as int) =~= v@);
    }
    Some(acc)
}

/// If a prefix of a digit string already exceeds `u64::MAX`, so does the
/// whole string.
proof fn lemma_dec_val_prefix_overflow(s: Seq<char>, i: int)
    requires
        0 <= i < s.len(),
        spec_dec_val(s.take(i + 1)) > u64::MAX,
    ensures
        spec_dec_val(s) > u64::MAX,
    decreases s.len() - i,
{
    if i + 1 == s.len() {
        assert(s.take(i + 1) =~= s);
    } else {
        assert(s.take(i + 2).drop_last() =~= s.take(i + 1));
        assert(spec_dec_val(s.take(i + 2)) == spec_dec_val(s.take(i + 1)) * 10 + spec_digit_val(
            s.take(i + 2).last(),
        ));
        assert(spec_dec_val(s.take(i + 1)) * 10 >= spec_dec_val(s.take(i + 1))) by (nonlinear_arith)
            requires
                spec_dec_val(s.take(i + 1)) >= 0,
        ;
        lemma_dec_val_prefix_overflow(s, i + 1);
    }
}

/// Maps ASCII upper-case letters to lower case and keeps all else.
pub open spec fn spec_ascii_lower_char(c: char) -> char {
    if ('A' as u32) <= (c as u32) <= ('Z' as u32) {
        (((c as u32) + 32) as u8) as char
    } else {
        c
    }
}

pub open spec fn spec_ascii_lower(s: Seq<char>) -> Seq<char> {
    s.map_values(|c: char| spec_ascii_lower_char(c))
}

fn ascii_lower_char(c: char) -> (r: char)
    ensures
        r == spec_ascii_lower_char(c),
{
    let u = c as u32;
    if 65 <= u && u <= 90 {
        ((u + 32) as u8) as char
    } else {
        c
    }
}

/// Lower-cases the ASCII letters of `v`.
pub fn ascii_lower(v: &[char]) -> (r: Vec<char>)
    ensures
        r@ == spec_ascii_lower(v@),
{
    let mut r: Vec<char> = Vec::new();
    let mut i: usize = 0;
    while i < v.len()
        invariant
            0 <= i <= v@.len(),
            r@ == spec_ascii_lower(v@.take(i as int)),
        decreases v@.len() - i,
    {
        r.push(ascii_lower_char(v[i]));
        proof {
            assert(spec_ascii_lower(v@.take(i as int)).push(spec_ascii_lower_char(v@[i as int]))
                =~= spec_ascii_lower(v@.take(i + 1)));
        }
        i = i + 1;
    }
    proof {
        assert(v@.take(v@.len() as int) =~= v@);
    }
    r
}

/// Appends every character of `tail` to `v`.
pub fn extend_chars(v: &mut Vec<char>, tail: &[char])
    ensures
        final(v)@ == old(v)@ + tail@,
{
    let mut i: usize = 0;
    while i < tail.len()
        invariant
            0 <= i <= tail@.len(),
            v@ == old(v)@ + tail@.take(i as int),
        decreases tail@.len() - i,
    {
        v.push(tail[i]);
        proof {
            assert((old(v)@ + tail@.take(i as int)).push(tail@[i as int]) =~= old(v)@ + tail@.take(
                i + 1,
            ));
        }
        i = i + 1;
    }
    proof {
        assert(tail@.take(tail@.len() as int) =~= tail@);
    }
}

/// Appends every character of the string `tail` to `v`.
pub fn extend_str(v: &mut Vec<char>, tail: &str)
    ensures
        final(v)@ == old(v)@ + tail@,
{
    let t = str_chars(tail);
    extend_chars(v, t.as_slice());
}

} // verus!
