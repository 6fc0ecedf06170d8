//! Cookies: the cookie record, domain-indexed sets, the jar, the HTTP
//! `Cookie` header value, and the Netscape cookie-file parser.
use vstd::prelude::*;
use vstd::string::StringExecFns;

use crate::chars::{
    chars_string, chars_start_with, extend_chars, has_prefix, lemma_join_push, spec_ascii_lower,
    spec_dec_val, spec_join, spec_split, spec_trim, all_digits, ascii_lower, chars_eq, parse_u64,
    split_char, str_chars, str_eq, trim_chars,
};
use crate::err::TydleError;

verus! {

broadcast use {vstd::std_specs::vec::group_vec_axioms, vstd::seq::group_seq_axioms};

/// The mathematical content of one cookie.
pub struct CookieModel {
    pub name: Seq<char>,
    pub value: Seq<char>,
    pub domain: Seq<char>,
    pub path: Seq<char>,
    pub secure: bool,
    pub expiration: nat,
    pub http_only: bool,
}

/// One stored cookie.
#[derive(Debug)]
pub struct Cookie {
    pub name: String,
    pub value: String,
    pub domain: String,
    pub path: String,
    pub secure: bool,
    /// Expiry as unix seconds.
    pub expiration: u64,
    pub http_only: bool,
}

impl View for Cookie {
    type V = CookieModel;

    open spec fn view(&self) -> CookieModel {
        CookieModel {
            name: self.name@,
            value: self.value@,
            domain: self.domain@,
            path: self.path@,
            secure: self.secure,
            expiration: self.expiration as nat,
            http_only: self.http_only,
        }
    }
}

impl DeepView for Cookie {
    type V = CookieModel;

    open spec fn deep_view(&self) -> CookieModel {
        self.view()
    }
}

impl Default for Cookie {
    /// The empty cookie: everything blank but the root path.
    fn default() -> (r: Self)
        ensures
            r@.name.len() == 0,
            r@.value.len() == 0,
            r@.domain.len() == 0,
            r@.path == "/"@,
            !r@.secure,
            r@.expiration == 0,
            !r@.http_only,
    {
        Cookie {
            name: String::new(),
            value: String::new(),
            domain: String::new(),
            path: String::from_str("/"),
            secure: false,
            expiration: 0,
            http_only: false,
        }
    }
}

impl Cookie {
    /// A field-for-field copy.
    pub fn duplicate(&self) -> (r: Cookie)
        ensures
            r@ == self@,
    {
        Cookie {
            name: self.name.clone(),
            value: self.value.clone(),
            domain: self.domain.clone(),
            path: self.path.clone(),
            secure: self.secure,
            expiration: self.expiration,
            http_only: self.http_only,
        }
    }
}

/// First cookie of `s` named `name`.
pub open spec fn spec_cookies_get(s: Seq<CookieModel>, name: Seq<char>) -> Option<CookieModel>
    decreases s.len(),
{
    if s.len() == 0 {
        None
    } else if s[0].name == name {
        Some(s[0])
    } else {
        spec_cookies_get(s.drop_first(), name)
    }
}

/// The `name=value` text of one cookie.
pub open spec fn spec_cookie_pair(c: CookieModel) -> Seq<char> {
    c.name + seq!['='] + c.value
}

/// The `Cookie` header value of a cookie list.
pub open spec fn spec_header_value(s: Seq<CookieModel>) -> Seq<char> {
    if s.len() == 0 {
        Seq::empty()
    } else {
        spec_join(s.map_values(|c: CookieModel| spec_cookie_pair(c)), "; "@)
    }
}

/// An ordered set of cookies for one domain.
#[derive(Debug)]
pub struct DomainCookies {
    cookies: Vec<Cookie>,
}

impl View for DomainCookies {
    type V = Seq<CookieModel>;

    closed spec fn view(&self) -> Seq<CookieModel> {
        self.cookies.deep_view()
    }
}

impl DomainCookies {
    /// Wraps a cookie list.
    pub fn new(cookies: Vec<Cookie>) -> (r: Self)
        ensures
            r@ == cookies.deep_view(),
    {
        DomainCookies { cookies }
    }

    /// The empty set.
    pub fn empty() -> (r: Self)
        ensures
            r@.len() == 0,
    {
        let empty_cookies: Vec<Cookie> = Vec::new();
        proof {
            assert(empty_cookies.deep_view() =~= Seq::<CookieModel>::empty());
        }
        DomainCookies { cookies: empty_cookies }
    }

    pub fn len(&self) -> (r: usize)
        ensures
            r == self@.len(),
    {
        self.cookies.len()
    }

    pub fn at<'a>(&'a self, i: usize) -> (r: &'a Cookie)
        requires
            i < self@.len(),
        ensures
            r@ == self@[i as int],
    {
        &self.cookies[i]
    }

    pub fn push(&mut self, c: Cookie)
        ensures
            final(self)@ == old(self)@.push(c@),
    {
        let ghost old_dv = self.cookies.deep_view();
        self.cookies.push(c);
        proof {
            assert(self.cookies.deep_view() =~~= old_dv.push(self.cookies@.last()@));
        }
    }

    /// The first cookie with the given name.
    #[verifier::loop_isolation(false)]
    pub fn get<'a>(&'a self, name: &str) -> (r: Option<&'a Cookie>)
        ensures
            (r matches Some(c) ==> spec_cookies_get(self@, name@) == Some(c@)),
            r is None <==> spec_cookies_get(self@, name@) is None,
    {
        let n = self.cookies.len();
        let mut i: usize = 0;
        proof {
            assert(self@.skip(0) =~= self@);
        }
        while i < n
            invariant
                0 <= i <= n,
                spec_cookies_get(self@, name@) == spec_cookies_get(self@.skip(i as int), name@),
            decreases n - i,
        {
            proof {
                assert(self@.skip(i as int)[0] == self@[i as int]);
                assert(self@.skip(i as int).drop_first() =~= self@.skip(i + 1));
            }
            if str_eq(self.cookies[i].name.as_str(), name) {
                return Some(&self.cookies[i]);
            }
            i = i + 1;
        }
        proof {
            assert(self@.skip(n as int).len() == 0);
        }
        None
    }

    /// Whether a cookie with the given name is present.
    pub fn contains(&self, name: &str) -> (r: bool)
        ensures
            r == (spec_cookies_get(self@, name@) is Some),
    {
        self.get(name).is_some()
    }

    /// Whether the set is empty.
    pub fn is_empty(&self) -> (r: bool)
        ensures
            r == (self@.len() == 0),
    {
        self.cookies.len() == 0
    }

    /// Writes the set as an HTTP `Cookie` header value: the `name=value`
    /// pairs joined by `"; "`.
    #[verifier::loop_isolation(false)]
    pub fn header_value(&self) -> (r: String)
        ensures
            r@ == spec_header_value(self@),
    {
        let ghost enc = |c: CookieModel| spec_cookie_pair(c);
        let mut out: Vec<char> = Vec::new();
        let n = self.cookies.len();
        let mut i: usize = 0;
        proof {
            assert(self@.take(0).map_values(enc) =~= Seq::<Seq<char>>::empty());
        }
        while i < n
            invariant
                0 <= i <= n,
                out@ == spec_join(self@.take(i as int).map_values(enc), "; "@),
            decreases n - i,
        {
            let ghost prefix = self@.take(i as int).map_values(enc);
            let c = &self.cookies[i];
            let mut piece: Vec<char> = str_chars(c.name.as_str());
            piece.push('=');
            let vcs = str_chars(c.value.as_str());
            extend_chars(&mut piece, vcs.as_slice());
            proof {
                assert(piece@ =~= spec_cookie_pair(self@[i as int]));
                lemma_join_push(prefix, "; "@, piece@);
                assert(self@.take(i + 1).map_values(enc) =~~= prefix.push(piece@));
            }
            if i > 0 {
                let sepc = str_chars("; ");
                extend_chars(&mut out, sepc.as_slice());
            }
            extend_chars(&mut out, piece.as_slice());
            proof {
                if i == 0 {
                    assert(prefix.len() == 0);
                    assert(out@ =~= piece@);
                } else {
                    assert(prefix.len() > 0);
                    assert(out@ =~= spec_join(prefix, "; "@) + "; "@ + piece@);
                }
            }
            i = i + 1;
        }
        proof {
            assert(self@.take(n as int) =~= self@);
        }
        chars_string(out.as_slice())
    }
}

/// A mutable store of cookies shared by the whole facade. Callers that
/// share one across tasks put their own lock around it.
#[derive(Debug)]
pub struct CookieJar {
    cookies: DomainCookies,
}

impl View for CookieJar {
    type V = Seq<CookieModel>;

    closed spec fn view(&self) -> Seq<CookieModel> {
        self.cookies@
    }
}

impl CookieJar {
    /// A jar holding the given cookies.
    pub fn new_with_cookies(cookies: DomainCookies) -> (r: Self)
        ensures
            r@ == cookies@,
    {
        CookieJar { cookies }
    }

    /// All cookies whose domain is exactly `domain`, in order.
    #[verifier::loop_isolation(false)]
    pub fn get_all(&self, domain: &str) -> (r: DomainCookies)
        ensures
            r@ == self@.filter(|c: CookieModel| c.domain == domain@),
    {
        let ghost pred = |c: CookieModel| c.domain == domain@;
        let mut out = DomainCookies::empty();
        let n = self.cookies.len();
        let mut i: usize = 0;
        proof {
            reveal_with_fuel(Seq::filter, 2);
            assert(self@.take(0).filter(pred) =~= Seq::<CookieModel>::empty());
            assert(out@ =~= self@.take(0).filter(pred));
        }
        while i < n
            invariant
                0 <= i <= n,
                out@ == self@.take(i as int).filter(pred),
            decreases n - i,
        {
            proof {
                reveal_with_fuel(Seq::filter, 2);
                assert(self@.take(i + 1).drop_last() =~= self@.take(i as int));
                assert(self@.take(i + 1).last() == self@[i as int]);
            }
            if str_eq(self.cookies.at(i).domain.as_str(), domain) {
                out.push(self.cookies.at(i).duplicate());
            }
            i = i + 1;
        }
        proof {
            assert(self@.take(n as int) =~= self@);
        }
        out
    }

    /// Adds one cookie at the end.
    pub fn set(&mut self, cookie: Cookie)
        ensures
            final(self)@ == old(self)@.push(cookie@),
    {
        self.cookies.push(cookie);
    }
}

/// The SAPISID cookies in their three authorization slots.
#[derive(Debug)]
pub struct SidCookies {
    pub yt_sapisid: Option<Cookie>,
    pub yt_1psapisid: Option<Cookie>,
    pub yt_3psapisid: Option<Cookie>,
}

impl SidCookies {
    pub fn new(yt_sapisid: Option<Cookie>, yt_1psapisid: Option<Cookie>, yt_3psapisid: Option<
        Cookie,
    >) -> (r: Self)
        ensures
            r.yt_sapisid == yt_sapisid,
            r.yt_1psapisid == yt_1psapisid,
            r.yt_3psapisid == yt_3psapisid,
    {
        SidCookies { yt_sapisid, yt_1psapisid, yt_3psapisid }
    }
}

/// Whether a cookie name is sent only over HTTP: the `__Host-` and
/// `__Secure-` prefixes.
pub open spec fn spec_http_only_name(name: Seq<char>) -> bool {
    has_prefix(name, "__Host-"@) || has_prefix(name, "__Secure-"@)
}

/// What one line of a Netscape cookie file means: `None` for comments,
/// blanks and malformed rows; otherwise the cookie it describes.
pub open spec fn spec_parse_netscape_line(line: Seq<char>) -> Option<CookieModel> {
    let t = spec_trim(line);
    if t.len() == 0 || t[0] == '#' {
        None
    } else {
        let parts = spec_split(t, '\t');
        if parts.len() != 7 {
            None
        } else {
            let domain_raw = spec_trim(parts[0]);
            if domain_raw.len() == 0 {
                None
            } else {
                let include_sub = spec_ascii_lower(spec_trim(parts[1])) == spec_ascii_lower(
                    "TRUE"@,
                );
                let name = spec_trim(parts[5]);
                let e = spec_trim(parts[4]);
                Some(
                    CookieModel {
                        name: name,
                        value: spec_trim(parts[6]),
                        domain: if include_sub && !has_prefix(domain_raw, "."@) {
                            seq!['.'] + domain_raw
                        } else {
                            domain_raw
                        },
                        path: spec_trim(parts[2]),
                        secure: spec_ascii_lower(spec_trim(parts[3])) == spec_ascii_lower(
                            "TRUE"@,
                        ),
                        expiration: if e.len() > 0 && all_digits(e) && spec_dec_val(e)
                            <= u64::MAX {
                            spec_dec_val(e)
                        } else {
                            0
                        },
                        http_only: spec_http_only_name(name),
                    },
                )
            }
        }
    }
}

/// The cookies of a whole file: the lines' cookies in order.
pub open spec fn spec_netscape_lines(lines: Seq<Seq<char>>) -> Seq<CookieModel>
    decreases lines.len(),
{
    if lines.len() == 0 {
        Seq::empty()
    } else {
        match spec_parse_netscape_line(lines[0]) {
            Some(c) => seq![c] + spec_netscape_lines(lines.drop_first()),
            None => spec_netscape_lines(lines.drop_first()),
        }
    }
}

/// What the whole file text parses to.
pub open spec fn spec_parse_netscape(s: Seq<char>) -> Seq<CookieModel> {
    spec_netscape_lines(spec_split(s, '\n'))
}

proof fn lemma_netscape_push(lines: Seq<Seq<char>>, l: Seq<char>)
    ensures
        spec_netscape_lines(lines.push(l)) == spec_netscape_lines(lines) + (
        match spec_parse_netscape_line(l) {
            Some(c) => seq![c],
            None => Seq::<CookieModel>::empty(),
        }),
    decreases lines.len(),
{
    if lines.len() == 0 {
        assert(lines.push(l) =~= seq![l]);
        assert(seq![l][0] == l);
        assert(seq![l].drop_first() =~= Seq::<Seq<char>>::empty());
        assert(spec_netscape_lines(Seq::<Seq<char>>::empty()) =~= Seq::<CookieModel>::empty());
        match spec_parse_netscape_line(l) {
            Some(c) => {
                assert(spec_netscape_lines(seq![l]) =~= seq![c]);
                assert(spec_netscape_lines(lines) + seq![c] =~= seq![c]);
            },
            None => {
                assert(spec_netscape_lines(lines) + Seq::<CookieModel>::empty()
                    =~= Seq::<CookieModel>::empty());
            },
        }
    } else {
        lemma_netscape_push(lines.drop_first(), l);
        assert(lines.push(l).drop_first() =~= lines.drop_first().push(l));
        assert(lines.push(l)[0] == lines[0]);
        match spec_parse_netscape_line(lines[0]) {
            Some(c) => {
                assert(seq![c] + (spec_netscape_lines(lines.drop_first()) + (
                match spec_parse_netscape_line(l) {
                    Some(d) => seq![d],
                    None => Seq::<CookieModel>::empty(),
                })) =~= (seq![c] + spec_netscape_lines(lines.drop_first())) + (
                match spec_parse_netscape_line(l) {
                    Some(d) => seq![d],
                    None => Seq::<CookieModel>::empty(),
                }));
            },
            None => {
            },
        }
    }
}

/// Parses one cookie-file line.
fn parse_netscape_line(line: &[char]) -> (r: Option<Cookie>)
    ensures
        (r matches Some(c) ==> spec_parse_netscape_line(line@) == Some(c@)),
        r is None <==> spec_parse_netscape_line(line@) is None,
{
    let t = trim_chars(line);
    if t.len() == 0 {
        return None;
    }
    if t[0] == '#' {
        return None;
    }
    let parts = split_char(t.as_slice(), '\t');
    if parts.len() != 7 {
        return None;
    }
    proof {
        assert(forall|k: int|
            0 <= k < 7 ==> parts.deep_view()[k] == (#[trigger] parts@[k])@);
    }
    let domain_raw = trim_chars(parts[0].as_slice());
    if domain_raw.len() == 0 {
        return None;
    }
    let true_lower = ascii_lower(str_chars("TRUE").as_slice());
    let include_sub = chars_eq(
        ascii_lower(trim_chars(parts[1].as_slice()).as_slice()).as_slice(),
        true_lower.as_slice(),
    );
    let secure = chars_eq(
        ascii_lower(trim_chars(parts[3].as_slice()).as_slice()).as_slice(),
        true_lower.as_slice(),
    );
    let path = trim_chars(parts[2].as_slice());
    let e = trim_chars(parts[4].as_slice());
    let expiration = match parse_u64(e.as_slice()) {
        Some(n) => n,
        None => 0,
    };
    let name = trim_chars(parts[5].as_slice());
    let value = trim_chars(parts[6].as_slice());
    let http_only = chars_start_with(name.as_slice(), "__Host-") || chars_start_with(
        name.as_slice(),
        "__Secure-",
    );
    let domain: Vec<char> = if include_sub && !chars_start_with(domain_raw.as_slice(), ".") {
        let mut d: Vec<char> = Vec::new();
        d.push('.');
        extend_chars(&mut d, domain_raw.as_slice());
        proof {
            assert(d@ =~= seq!['.'] + domain_raw@);
        }
        d
    } else {
        domain_raw
    };
    Some(
        Cookie {
            name: chars_string(name.as_slice()),
            value: chars_string(value.as_slice()),
            domain: chars_string(domain.as_slice()),
            path: chars_string(path.as_slice()),
            secure,
            expiration,
            http_only,
        },
    )
}

/// Parses a Netscape-format cookie file: one cookie per well-formed row,
/// comments, blanks and malformed rows dropped.
#[verifier::loop_isolation(false)]
pub fn parse_netscape_cookies(cookie_content: String) -> (r: Result<DomainCookies, TydleError>)
    ensures
        r is Ok,
        (r matches Ok(dc) ==> dc@ == spec_parse_netscape(cookie_content@)),
{
    let cs = str_chars(cookie_content.as_str());
    let lines = split_char(cs.as_slice(), '\n');
    let mut out = DomainCookies::empty();
    let n = lines.len();
    let mut i: usize = 0;
    proof {
        assert(out@ =~= spec_netscape_lines(lines.deep_view().take(0)));
    }
    while i < n
        invariant
            0 <= i <= n,
            out@ == spec_netscape_lines(lines.deep_view().take(i as int)),
        decreases n - i,
    {
        proof {
            lemma_netscape_push(lines.deep_view().take(i as int), lines.deep_view()[i as int]);
            assert(lines.deep_view().take(i as int).push(lines.deep_view()[i as int])
                =~= lines.deep_view().take(i + 1));
            assert(lines.deep_view()[i as int] == lines@[i as int]@);
        }
        match parse_netscape_line(lines[i].as_slice()) {
            Some(c) => {
                proof {
                    assert(out@.push(c@) =~= out@ + seq![c@]);
                }
                out.push(c);
            },
            None => {
                proof {
                    assert(out@ + Seq::<CookieModel>::empty() =~= out@);
                }
            },
        }
        i = i + 1;
    }
    proof {
        assert(lines.deep_view().take(n as int) =~= lines.deep_view());
    }
    Ok(out)
}

/// A cookie whose header pair reassembles unambiguously: a non-blank
/// name free of `;` and `=`, and a value free of `;`.
pub open spec fn wf_header_cookie(c: CookieModel) -> bool {
    &&& c.name.len() > 0
    &&& !crate::chars::spec_is_ws(c.name[0])
    &&& !c.name.contains(';')
    &&& !c.name.contains('=')
    &&& !c.value.contains(';')
}

/// Joining pieces with `"; "` is joining the space-shifted pieces with `;`.
proof fn lemma_semicolon_join(ps: Seq<Seq<char>>)
    requires
        ps.len() >= 1,
    ensures
        spec_join(
            Seq::new(
                ps.len(),
                |i: int|
                    if i == 0 {
                        ps[0]
                    } else {
                        seq![' '] + ps[i]
                    },
            ),
            seq![';'],
        ) == spec_join(ps, "; "@),
    decreases ps.len(),
{
    let q = Seq::new(
        ps.len(),
        |i: int|
            if i == 0 {
                ps[0]
            } else {
                seq![' '] + ps[i]
            },
    );
    if ps.len() == 1 {
        assert(q =~= seq![ps[0]]);
        assert(spec_join(q, seq![';']) == ps[0]);
        assert(spec_join(ps, "; "@) == ps[0]);
    } else {
        lemma_semicolon_join(ps.drop_last());
        let qprev = Seq::new(
            ps.drop_last().len(),
            |i: int|
                if i == 0 {
                    ps.drop_last()[0]
                } else {
                    seq![' '] + ps.drop_last()[i]
                },
        );
        assert(q =~= qprev.push(seq![' '] + ps.last()));
        assert(ps =~= ps.drop_last().push(ps.last()));
        lemma_join_push(qprev, seq![';'], seq![' '] + ps.last());
        lemma_join_push(ps.drop_last(), "; "@, ps.last());
        assert("; "@ =~= seq![';', ' ']) by {
            reveal_strlit("; ");
        }
        assert(spec_join(qprev, seq![';']) + seq![';'] + (seq![' '] + ps.last()) =~= spec_join(
            ps.drop_last(),
            "; "@,
        ) + "; "@ + ps.last());
    }
}

/// Law: the `Cookie` header value splits back into the same name/value
/// pairs in the same order. Splitting the header on `;` yields one piece
/// per cookie; dropping the leading space of each later piece gives
/// `name=value`, whose first `=` stands exactly after the name.
pub proof fn lemma_header_value_roundtrip(cs: Seq<CookieModel>)
    requires
        cs.len() > 0,
        forall|i: int| 0 <= i < cs.len() ==> wf_header_cookie(#[trigger] cs[i]),
    ensures
        spec_split(spec_header_value(cs), ';').len() == cs.len(),
        forall|i: int|
            0 <= i < cs.len() ==> crate::chars::spec_trim_front(
                #[trigger] spec_split(spec_header_value(cs), ';')[i],
            ) == spec_cookie_pair(cs[i]),
        forall|i: int|
            0 <= i < cs.len() ==> crate::miner::spec_find_char(
                spec_cookie_pair(#[trigger] cs[i]),
                '=',
            ) == cs[i].name.len(),
        forall|i: int|
            0 <= i < cs.len() ==> (#[trigger] spec_cookie_pair(cs[i])).take(
                cs[i].name.len() as int,
            ) == cs[i].name && spec_cookie_pair(cs[i]).skip(cs[i].name.len() as int + 1) == cs[i].value,
{
    let pairs = cs.map_values(|c: CookieModel| spec_cookie_pair(c));
    let header = spec_header_value(cs);
    let qs = Seq::new(
        pairs.len(),
        |i: int|
            if i == 0 {
                pairs[0]
            } else {
                seq![' '] + pairs[i]
            },
    );
    lemma_semicolon_join(pairs);
    assert(spec_join(qs, seq![';']) == header);
    crate::chars::lemma_split_props(header, ';');
    let ss = spec_split(header, ';');
    assert forall|i: int| 0 <= i < qs.len() implies !(#[trigger] qs[i]).contains(';') by {
        assert forall|j: int| 0 <= j < qs[i].len() implies qs[i][j] != ';' by {
            let p = spec_cookie_pair(cs[i]);
            assert(pairs[i] == p);
            if cs[i].name.contains(';') || cs[i].value.contains(';') {
            }
            assert(forall|k: int| 0 <= k < cs[i].name.len() ==> p[k] == cs[i].name[k]);
            assert(p[cs[i].name.len() as int] == '=');
            assert(forall|k: int|
                cs[i].name.len() + 1 <= k < p.len() ==> p[k] == cs[i].value[k - (cs[i].name.len()
                    + 1)]);
            if i == 0 {
                if qs[i][j] == ';' {
                    assert(p[j] == ';');
                    if j < cs[i].name.len() {
                        assert(cs[i].name.contains(';')) by {
                            assert(cs[i].name[j] == ';');
                        }
                    } else if j > cs[i].name.len() {
                        assert(cs[i].value.contains(';')) by {
                            assert(cs[i].value[j - (cs[i].name.len() + 1)] == ';');
                        }
                    }
                }
            } else {
                if j > 0 && qs[i][j] == ';' {
                    assert(p[j - 1] == ';');
                    if j - 1 < cs[i].name.len() {
                        assert(cs[i].name.contains(';')) by {
                            assert(cs[i].name[j - 1] == ';');
                        }
                    } else if j - 1 > cs[i].name.len() {
                        assert(cs[i].value.contains(';')) by {
                            assert(cs[i].value[j - 1 - (cs[i].name.len() + 1)] == ';');
                        }
                    }
                }
            }
        }
    }
    assert(seq![';'][0] == ';');
    assert(cs.len() >= 1);
    assert(qs.len() >= 1);
    assert(ss.len() >= 1);
    crate::chars::lemma_join_unique(ss, qs, seq![';']);
    assert forall|i: int| 0 <= i < cs.len() implies crate::chars::spec_trim_front(
        #[trigger] spec_split(spec_header_value(cs), ';')[i],
    ) == spec_cookie_pair(cs[i]) by {
        let p = spec_cookie_pair(cs[i]);
        assert(pairs[i] == p);
        assert(ss[i] == qs[i]);
        assert(p[0] == cs[i].name[0]);
        assert(p.len() > 0);
        if i == 0 {
            assert(crate::chars::spec_trim_front(p) == p);
        } else {
            assert(qs[i] == seq![' '] + p);
            assert(qs[i][0] == ' ');
            assert(qs[i].drop_first() =~= p);
            assert(crate::chars::spec_trim_front(qs[i]) == crate::chars::spec_trim_front(p));
            assert(crate::chars::spec_trim_front(p) == p);
        }
    }
    assert forall|i: int| 0 <= i < cs.len() implies crate::miner::spec_find_char(
        spec_cookie_pair(#[trigger] cs[i]),
        '=',
    ) == cs[i].name.len() by {
        let p = spec_cookie_pair(cs[i]);
        let nl = cs[i].name.len() as int;
        crate::miner::lemma_find_char_props(p, '=');
        let f = crate::miner::spec_find_char(p, '=');
        assert(p[nl] == '=');
        assert(forall|k: int| 0 <= k < nl ==> p[k] == cs[i].name[k]);
        if f == -1 {
            assert(p[nl] != '=');
        }
        if 0 <= f < nl {
            assert(cs[i].name.contains('=')) by {
                assert(cs[i].name[f] == '=');
            }
        }
        if f > nl {
            assert(p[nl] != '=');
        }
    }
    assert forall|i: int| 0 <= i < cs.len() implies (#[trigger] spec_cookie_pair(cs[i])).take(
        cs[i].name.len() as int,
    ) == cs[i].name && spec_cookie_pair(cs[i]).skip(cs[i].name.len() as int + 1) == cs[i].value by {
        let p = spec_cookie_pair(cs[i]);
        assert(p.take(cs[i].name.len() as int) =~= cs[i].name);
        assert(p.skip(cs[i].name.len() as int + 1) =~= cs[i].value);
    }
}



/// Whether the consent opt-out cookie must be written: the `SOCS` cookie
/// is absent, or it still carries a `CAA` consent value.
pub open spec fn spec_needs_consent_cookie(cookies: Seq<CookieModel>) -> bool {
    match spec_cookies_get(cookies, "SOCS"@) {
        None => true,
        Some(c) => has_prefix(c.value, "CAA"@),
    }
}

/// Decides whether the consent cookie is to be set for this cookie set.
pub fn needs_consent_cookie(yt_cookies: &DomainCookies) -> (r: bool)
    ensures
        r == spec_needs_consent_cookie(yt_cookies@),
{
    match yt_cookies.get("SOCS") {
        None => true,
        Some(c) => chars_start_with(str_chars(c.value.as_str()).as_slice(), "CAA"),
    }
}

/// The rewritten `PREF` cookie value: the existing preference pairs with
/// the locale forced to `en` and the time zone to `UTC`, re-encoded.
pub open spec fn spec_pref_value(existing: Option<Seq<char>>) -> Seq<char> {
    let base = match existing {
        Some(s) => crate::urlq::query_pairs_of(s),
        None => Seq::empty(),
    };
    crate::urlq::spec_query_string(
        crate::urlq::spec_pairs_set(
            crate::urlq::spec_pairs_set(base, "hl"@, "en"@),
            "tz"@,
            "UTC"@,
        ),
    )
}

/// Builds the `PREF` cookie value the extractor writes before requests.
pub fn build_pref_value(existing: Option<&str>) -> (r: String)
    ensures
        ({
            let e = match existing {
                Some(s) => Some(s@),
                None => None::<Seq<char>>,
            };
            r@ == spec_pref_value(e)
        }),
{
    let mut pairs: Vec<(String, String)> = match existing {
        Some(s) => crate::urlq::parse_query(s),
        None => Vec::new(),
    };
    proof {
        if existing is None {
            assert(pairs.deep_view() =~= Seq::<(Seq<char>, Seq<char>)>::empty());
        }
    }
    crate::urlq::pairs_set(&mut pairs, "hl", "en");
    crate::urlq::pairs_set(&mut pairs, "tz", "UTC");
    crate::urlq::convert_to_query_string(&pairs)
}

} // verus!
