//! The crate's own model of JSON data, and the one trusted call that turns
//! JSON text into it. All logic that reads mined configuration blobs and
//! player responses works on `JsonVal` and is verified.
use vstd::prelude::*;
use vstd::string::StringExecFns;

use crate::chars::str_eq;

verus! {

broadcast use {vstd::std_specs::vec::group_vec_axioms, vstd::seq::group_seq_axioms};

/// A JSON value held as plain data. Numbers are kept as signed 64-bit
/// integers; a number outside that range becomes `Null`.
#[derive(Debug)]
pub enum JsonVal {
    Null,
    Bool(bool),
    Int(i64),
    Str(String),
    Arr(Vec<JsonVal>),
    Obj(Vec<(String, JsonVal)>),
}

impl View for JsonVal {
    type V = JsonVal;

    open spec fn view(&self) -> JsonVal {
        *self
    }
}

impl DeepView for JsonVal {
    type V = JsonVal;

    open spec fn deep_view(&self) -> JsonVal {
        *self
    }
}

/// First binding of `key` among `entries`.
pub open spec fn spec_obj_get(entries: Seq<(String, JsonVal)>, key: Seq<char>) -> Option<
    JsonVal,
>
    decreases entries.len(),
{
    if entries.len() == 0 {
        None
    } else if entries[0].0@ == key {
        Some(entries[0].1)
    } else {
        spec_obj_get(entries.drop_first(), key)
    }
}

/// Member lookup: the first binding of `key` when `v` is an object.
pub open spec fn spec_get(v: JsonVal, key: Seq<char>) -> Option<JsonVal> {
    match v {
        JsonVal::Obj(entries) => spec_obj_get(entries@, key),
        _ => None,
    }
}

impl JsonVal {
    /// Member lookup on objects; `None` on every other kind of value.
    #[verifier::loop_isolation(false)]
    pub fn get<'a>(&'a self, key: &str) -> (r: Option<&'a JsonVal>)
        ensures
            (r matches Some(v) ==> spec_get(*self, key@) == Some(*v)),
            r is None <==> spec_get(*self, key@) is None,
    {
        match self {
            JsonVal::Obj(entries) => {
                proof {
                    assert(entries@.skip(0) =~= entries@);
                }
                let n = entries.len();
                let mut i: usize = 0;
                while i < n
                    invariant
                        0 <= i <= n,
                        n == entries@.len(),
                        forall|j: int| 0 <= j < i ==> (#[trigger] entries@[j]).0@ != key@,
                        spec_obj_get(entries@, key@) == spec_obj_get(
                            entries@.skip(i as int),
                            key@,
                        ),
                    decreases n - i,
                {
                    if str_eq(entries[i].0.as_str(), key) {
                        proof {
                            assert(entries@.skip(i as int)[0] == entries@[i as int]);
                        }
                        return Some(&entries[i].1);
                    }
                    proof {
                        assert(entries@.skip(i as int)[0] == entries@[i as int]);
                        assert(entries@.skip(i as int).drop_first() =~= entries@.skip(i + 1));
                    }
                    i = i + 1;
                }
                proof {
                    assert(entries@.skip(n as int).len() == 0);
                }
                None
            },
            _ => None,
        }
    }

    /// The text of a string value.
    pub fn as_str<'a>(&'a self) -> (r: Option<&'a str>)
        ensures
            (r matches Some(s) ==> *self matches JsonVal::Str(t) && t@ == s@),
            r is None <==> !(*self matches JsonVal::Str(_)),
    {
        match self {
            JsonVal::Str(s) => Some(s.as_str()),
            _ => None,
        }
    }

    /// The value of an integer number.
    pub fn as_i64(&self) -> (r: Option<i64>)
        ensures
            (r matches Some(n) ==> *self == JsonVal::Int(n)),
            r is None <==> !(*self matches JsonVal::Int(_)),
    {
        match self {
            JsonVal::Int(n) => Some(*n),
            _ => None,
        }
    }

    pub fn as_bool(&self) -> (r: Option<bool>)
        ensures
            (r matches Some(b) ==> *self == JsonVal::Bool(b)),
            r is None <==> !(*self matches JsonVal::Bool(_)),
    {
        match self {
            JsonVal::Bool(b) => Some(*b),
            _ => None,
        }
    }

    pub fn as_arr<'a>(&'a self) -> (r: Option<&'a Vec<JsonVal>>)
        ensures
            (r matches Some(a) ==> *self == JsonVal::Arr(*a)),
            r is None <==> !(*self matches JsonVal::Arr(_)),
    {
        match self {
            JsonVal::Arr(a) => Some(a),
            _ => None,
        }
    }

    pub fn as_obj<'a>(&'a self) -> (r: Option<&'a Vec<(String, JsonVal)>>)
        ensures
            (r matches Some(o) ==> *self == JsonVal::Obj(*o)),
            r is None <==> !(*self matches JsonVal::Obj(_)),
    {
        match self {
            JsonVal::Obj(o) => Some(o),
            _ => None,
        }
    }

    pub fn is_null(&self) -> (r: bool)
        ensures
            r == (*self == JsonVal::Null),
    {
        match self {
            JsonVal::Null => true,
            _ => false,
        }
    }

    /// Whether the value is an object with no members.
    pub fn is_empty_obj(&self) -> (r: bool)
        ensures
            r == (*self matches JsonVal::Obj(o) && o@.len() == 0),
    {
        match self {
            JsonVal::Obj(o) => o.len() == 0,
            _ => false,
        }
    }
}

/// Lookup along a member path; `None` as soon as a step is missing.
pub open spec fn spec_get_path(v: JsonVal, path: Seq<Seq<char>>) -> Option<JsonVal>
    decreases path.len(),
{
    if path.len() == 0 {
        Some(v)
    } else {
        match spec_get(v, path[0]) {
            Some(w) => spec_get_path(w, path.drop_first()),
            None => None,
        }
    }
}

/// Member lookup along `path`.
#[verifier::loop_isolation(false)]
pub fn get_path<'a>(v: &'a JsonVal, path: &[&str]) -> (r: Option<&'a JsonVal>)
    ensures
        (r matches Some(w) ==> spec_get_path(*v, path.deep_view()) == Some(*w)),
        r is None <==> spec_get_path(*v, path.deep_view()) is None,
{
    let mut cur = v;
    let mut i: usize = 0;
    proof {
        assert(path.deep_view().skip(0) =~= path.deep_view());
    }
    while i < path.len()
        invariant
            0 <= i <= path@.len(),
            spec_get_path(*v, path.deep_view()) == spec_get_path(
                *cur,
                path.deep_view().skip(i as int),
            ),
        decreases path@.len() - i,
    {
        proof {
            assert(path.deep_view().skip(i as int)[0] == path.deep_view()[i as int]);
            assert(path.deep_view()[i as int] == path@[i as int]@);
            assert(path.deep_view().skip(i as int).drop_first() =~= path.deep_view().skip(i + 1));
        }
        match cur.get(path[i]) {
            Some(w) => {
                cur = w;
            },
            None => {
                return None;
            },
        }
        i = i + 1;
    }
    proof {
        assert(path.deep_view().skip(path@.len() as int).len() == 0);
    }
    Some(cur)
}

/// The first string value bound to a member named `target`, searching
/// objects and arrays depth-first in order.
pub open spec fn spec_find_key(v: JsonVal, target: Seq<char>) -> Option<Seq<char>>
    decreases v, 0int,
{
    match v {
        JsonVal::Obj(entries) => spec_find_key_entries(entries@, target),
        JsonVal::Arr(items) => spec_find_key_items(items@, target),
        _ => None,
    }
}

/// The answer one object member contributes: its own string value when its
/// name matches, else whatever a deep search of its value finds.
pub open spec fn spec_entry_hit(entry: (String, JsonVal), target: Seq<char>) -> Option<Seq<char>>
    decreases entry, 1int,
{
    if entry.0@ == target {
        match entry.1 {
            JsonVal::Str(s) => Some(s@),
            _ => None,
        }
    } else {
        spec_find_key(entry.1, target)
    }
}

pub open spec fn spec_find_key_entries(
    entries: Seq<(String, JsonVal)>,
    target: Seq<char>,
) -> Option<Seq<char>>
    decreases entries, 2int,
{
    if entries.len() == 0 {
        None
    } else if spec_entry_hit(entries[0], target) is Some {
        spec_entry_hit(entries[0], target)
    } else {
        spec_find_key_entries(entries.drop_first(), target)
    }
}

pub open spec fn spec_find_key_items(items: Seq<JsonVal>, target: Seq<char>) -> Option<Seq<char>>
    decreases items, 2int,
{
    if items.len() == 0 {
        None
    } else if spec_find_key(items[0], target) is Some {
        spec_find_key(items[0], target)
    } else {
        spec_find_key_items(items.drop_first(), target)
    }
}

/// Depth-first search for the first string value under a member named
/// `target`, as the session-id mining does.
#[verifier::loop_isolation(false)]
pub fn find_key(v: &JsonVal, target: &str) -> (r: Option<String>)
    ensures
        (r matches Some(s) ==> spec_find_key(*v, target@) == Some(s@)),
        r is None <==> spec_find_key(*v, target@) is None,
    decreases *v,
{
    match v {
        JsonVal::Obj(entries) => {
            proof {
                assert(entries@.skip(0) =~= entries@);
            }
            let n = entries.len();
            let mut i: usize = 0;
            while i < n
                invariant
                    0 <= i <= n,
                    n == entries@.len(),
                    spec_find_key_entries(entries@, target@) == spec_find_key_entries(
                        entries@.skip(i as int),
                        target@,
                    ),
                decreases n - i,
            {
                proof {
                    assert(entries@.skip(i as int)[0] == entries@[i as int]);
                    assert(entries@.skip(i as int).drop_first() =~= entries@.skip(i + 1));
                    assert(decreases_to!(*v => v->Obj_0));
                    assert(v->Obj_0 == *entries);
                    assert(decreases_to!(*entries => entries@));
                    assert(decreases_to!(entries@ => entries@[i as int]));
                    assert(decreases_to!(entries@[i as int] => entries@[i as int].1));
                }
                let hit = str_eq(entries[i].0.as_str(), target);
                if hit {
                    match &entries[i].1 {
                        JsonVal::Str(s) => {
                            proof {
                                assert(spec_entry_hit(entries@[i as int], target@) == Some(s@));
                                assert(spec_find_key_entries(entries@.skip(i as int), target@)
                                    == Some(s@));
                            }
                            return Some(s.clone());
                        },
                        _ => {},
                    }
                } else {
                    proof {
                        assert(entries@[i as int].1 == entries[i as int].1);
                    }
                    match find_key(&entries[i].1, target) {
                        Some(found) => {
                            return Some(found);
                        },
                        None => {},
                    }
                }
                i = i + 1;
            }
            None
        },
        JsonVal::Arr(items) => {
            proof {
                assert(items@.skip(0) =~= items@);
            }
            let n = items.len();
            let mut i: usize = 0;
            while i < n
                invariant
                    0 <= i <= n,
                    n == items@.len(),
                    spec_find_key_items(items@, target@) == spec_find_key_items(
                        items@.skip(i as int),
                        target@,
                    ),
                decreases n - i,
            {
                proof {
                    assert(items@.skip(i as int)[0] == items@[i as int]);
                    assert(items@.skip(i as int).drop_first() =~= items@.skip(i + 1));
                    assert(decreases_to!(*v => v->Arr_0));
                    assert(v->Arr_0 == *items);
                    assert(decreases_to!(*items => items@));
                    assert(decreases_to!(items@ => items@[i as int]));
                }
                match find_key(&items[i], target) {
                    Some(found) => {
                        return Some(found);
                    },
                    None => {},
                }
                i = i + 1;
            }
            None
        },
        _ => None,
    }
}



/// The text one run contributes: its `text` member when it is a string.
pub open spec fn spec_run_text(run: JsonVal) -> Seq<char> {
    match spec_get(run, "text"@) {
        Some(JsonVal::Str(t)) => t@,
        _ => Seq::empty(),
    }
}

/// The concatenated text of a run list.
pub open spec fn spec_runs_text(runs: Seq<JsonVal>) -> Seq<char>
    decreases runs.len(),
{
    if runs.len() == 0 {
        Seq::empty()
    } else {
        spec_run_text(runs[0]) + spec_runs_text(runs.drop_first())
    }
}

/// The run list of an item: its `runs` member, or the item itself when it
/// is an array.
pub open spec fn spec_runs_of(item: JsonVal) -> Seq<JsonVal> {
    match spec_get(item, "runs"@) {
        Some(JsonVal::Arr(a)) => a@,
        _ => match item {
            JsonVal::Arr(a) => a@,
            _ => Seq::empty(),
        },
    }
}

/// What reading text at `path` yields: the `simpleText` member, else the
/// concatenated `text` of up to `max_runs` runs; nothing when the path is
/// missing, the runs are absent, or the text is empty.
pub open spec fn spec_get_text(
    data: JsonVal,
    path: Seq<Seq<char>>,
    max_runs: Option<nat>,
) -> Option<Seq<char>> {
    match spec_get_path(data, path) {
        None => None,
        Some(item) => match spec_get(item, "simpleText"@) {
            Some(JsonVal::Str(t)) => Some(t@),
            _ => {
                let runs = spec_runs_of(item);
                let limited = match max_runs {
                    Some(m) => if m < runs.len() {
                        runs.take(m as int)
                    } else {
                        runs
                    },
                    None => runs,
                };
                if runs.len() == 0 {
                    None
                } else if spec_runs_text(limited).len() == 0 {
                    None
                } else {
                    Some(spec_runs_text(limited))
                }
            },
        },
    }
}

/// Reads display text out of a renderer: `simpleText`, else the runs'
/// texts concatenated, truncated to `max_runs` runs when given.
#[verifier::loop_isolation(false)]
pub fn get_text(data: &JsonVal, path: &[&str], max_runs: Option<usize>) -> (r: Option<String>)
    ensures
        ({
            let mr = match max_runs {
                Some(m) => Some(m as nat),
                None => None::<nat>,
            };
            &&& (r matches Some(t) ==> spec_get_text(*data, path.deep_view(), mr) == Some(t@))
            &&& (r is None <==> spec_get_text(*data, path.deep_view(), mr) is None)
        }),
{
    let item = match get_path(data, path) {
        Some(v) => v,
        None => {
            return None;
        },
    };
    match item.get("simpleText") {
        Some(v) => {
            match v.as_str() {
                Some(t) => {
                    return Some(String::from_str(t));
                },
                None => {},
            }
        },
        None => {},
    }
    let empty_runs: Vec<JsonVal> = Vec::new();
    proof {
        assert(empty_runs@ =~= Seq::<JsonVal>::empty());
    }
    let runs: &Vec<JsonVal> = match item.get("runs") {
        Some(v) => match v.as_arr() {
            Some(a) => a,
            None => match item.as_arr() {
                Some(a) => a,
                None => &empty_runs,
            },
        },
        None => match item.as_arr() {
            Some(a) => a,
            None => &empty_runs,
        },
    };
    proof {
        assert(runs@ == spec_runs_of(*item));
    }
    if runs.len() == 0 {
        return None;
    }
    let total = runs.len();
    let limit = match max_runs {
        Some(m) => if m < total {
            m
        } else {
            total
        },
        None => total,
    };
    let ghost limited = runs@.take(limit as int);
    proof {
        assert(runs@.take(total as int) =~= runs@);
    }
    let mut out: Vec<char> = Vec::new();
    let mut i: usize = 0;
    proof {
        assert(limited.skip(0) =~= limited);
        assert(out@ + spec_runs_text(limited) =~= spec_runs_text(limited));
    }
    while i < limit
        invariant
            0 <= i <= limit <= runs@.len(),
            limited == runs@.take(limit as int),
            spec_runs_text(limited) == out@ + spec_runs_text(limited.skip(i as int)),
        decreases limit - i,
    {
        proof {
            assert(limited.skip(i as int)[0] == limited[i as int]);
            assert(limited[i as int] == runs@[i as int]);
            assert(limited.skip(i as int).drop_first() =~= limited.skip(i + 1));
        }
        match runs[i].get("text") {
            Some(v) => {
                match v.as_str() {
                    Some(t) => {
                        let tc = crate::chars::str_chars(t);
                        crate::chars::extend_chars(&mut out, tc.as_slice());
                        proof {
                            assert(out@ + spec_runs_text(limited.skip(i + 1)) =~= spec_runs_text(
                                limited,
                            ));
                        }
                    },
                    None => {
                        proof {
                            assert(spec_run_text(limited[i as int]) =~= Seq::<char>::empty());
                            assert(out@ + spec_runs_text(limited.skip(i + 1)) =~= spec_runs_text(
                                limited,
                            ));
                        }
                    },
                }
            },
            None => {
                proof {
                    assert(spec_run_text(limited[i as int]) =~= Seq::<char>::empty());
                    assert(out@ + spec_runs_text(limited.skip(i + 1)) =~= spec_runs_text(
                        limited,
                    ));
                }
            },
        }
        i = i + 1;
    }
    proof {
        assert(limited.skip(limit as int).len() == 0);
        assert(out@ =~= spec_runs_text(limited));
    }
    if out.len() == 0 {
        return None;
    }
    Some(crate::chars::chars_string(out.as_slice()))
}




/// `entries` with every binding of `key` removed, others kept in order.
pub open spec fn spec_obj_remove(
    entries: Seq<(String, JsonVal)>,
    key: Seq<char>,
) -> Seq<(String, JsonVal)>
    decreases entries.len(),
{
    if entries.len() == 0 {
        Seq::empty()
    } else if entries[0].0@ == key {
        spec_obj_remove(entries.drop_first(), key)
    } else {
        seq![entries[0]] + spec_obj_remove(entries.drop_first(), key)
    }
}

/// Removes every member named `key` from an object, keeping the other
/// members and their order; any other kind of value passes through.
pub fn strip_member(v: JsonVal, key: &str) -> (r: JsonVal)
    ensures
        (v matches JsonVal::Obj(o) ==> r matches JsonVal::Obj(o2) && o2@ == spec_obj_remove(
            o@,
            key@,
        )),
        !(v matches JsonVal::Obj(_)) ==> r == v,
{
    match v {
        JsonVal::Obj(members) => {
            let ghost orig = members@;
            let mut rest = members;
            let mut out: Vec<(String, JsonVal)> = Vec::new();
            proof {
                assert(out@ + spec_obj_remove(rest@, key@) =~= spec_obj_remove(orig, key@));
            }
            while rest.len() > 0
                invariant
                    spec_obj_remove(orig, key@) == out@ + spec_obj_remove(rest@, key@),
                decreases rest@.len(),
            {
                let ghost old_rest = rest@;
                let head = rest.remove(0);
                proof {
                    assert(head == old_rest[0]);
                    assert(rest@ =~= old_rest.drop_first());
                }
                if !str_eq(head.0.as_str(), key) {
                    let ghost old_out = out@;
                    out.push(head);
                    proof {
                        assert(out@ + spec_obj_remove(rest@, key@) =~= old_out + (seq![
                            old_rest[0],
                        ] + spec_obj_remove(old_rest.drop_first(), key@)));
                    }
                }
            }
            proof {
                assert(spec_obj_remove(rest@, key@) =~= Seq::<(String, JsonVal)>::empty());
                assert(out@ =~= spec_obj_remove(orig, key@));
            }
            JsonVal::Obj(out)
        },
        other => other,
    }
}


} // verus!

verus! {

/// What parsing JSON text yields: a function of the text alone.
pub uninterp spec fn json_of(s: Seq<char>) -> Option<JsonVal>;

#[verifier::external_type_specification]
#[verifier::external_body]
pub struct ExValue(serde_json::Value);

/// Relies on the conversion being per-variant and order-preserving:
/// objects keep serde_json's (sorted) member order, arrays their order;
/// integer numbers keep their value, other numbers become `Null`.
#[verifier::external_body]
fn from_serde(v: &serde_json::Value) -> JsonVal {
    match v {
        serde_json::Value::Null => JsonVal::Null,
        serde_json::Value::Bool(b) => JsonVal::Bool(*b),
        serde_json::Value::Number(n) => match n.as_i64() {
            Some(i) => JsonVal::Int(i),
            None => JsonVal::Null,
        },
        serde_json::Value::String(s) => JsonVal::Str(s.clone()),
        serde_json::Value::Array(a) => JsonVal::Arr(a.iter().map(from_serde).collect()),
        serde_json::Value::Object(o) => JsonVal::Obj(
            o.iter().map(|p| (p.0.clone(), from_serde(p.1))).collect(),
        ),
    }
}

/// Relies on serde_json::from_str: parses JSON text, `None` on malformed
/// input; the value is converted member for member by `from_serde`.
#[verifier::external_body]
pub fn parse_json(s: &str) -> (r: Option<JsonVal>)
    ensures
        r == json_of(s@),
{
    match serde_json::from_str::<serde_json::Value>(s) {
        Ok(v) => Some(from_serde(&v)),
        Err(_) => None,
    }
}

} // verus!

