//! A JSON document model: the values that responses, request bodies and
//! command output are made of.
use vstd::prelude::*;

verus! {

pub enum JsonV {
    Null,
    Bool(bool),
    Number(Seq<char>),
    Str(Seq<char>),
    Array(Seq<JsonV>),
    Object(Seq<(Seq<char>, JsonV)>),
}

#[derive(Debug, PartialEq)]
pub enum Json {
    Null,
    Bool(bool),
    Number(String),
    Str(String),
    Array(Vec<Json>),
    Object(Vec<(String, Json)>),
}

impl Json {
    pub open spec fn view_of(self) -> JsonV
        decreases self,
    {
        match self {
            Json::Null => JsonV::Null,
            Json::Bool(b) => JsonV::Bool(b),
            Json::Number(n) => JsonV::Number(n@),
            Json::Str(s) => JsonV::Str(s@),
            Json::Array(a) => JsonV::Array(
                Seq::new(a@.len(), |i: int| if 0 <= i < a@.len() { a@[i].view_of() } else { JsonV::Null }),
            ),
            Json::Object(o) => JsonV::Object(
                Seq::new(o@.len(), |i: int| if 0 <= i < o@.len() { (o@[i].0@, o@[i].1.view_of()) } else { (Seq::empty(), JsonV::Null) }),
            ),
        }
    }
}

// ---------------------------------------------------------------------
// Parsing
// ---------------------------------------------------------------------

#[verifier::external_type_specification]
#[verifier::external_body]
pub struct ExValue(serde_json::Value);

/// What `serde_json::from_slice::<Value>` parses `b` to, when `b` is one
/// JSON document (numbers kept as the text `serde_json` prints for them).
pub uninterp spec fn json_document(b: Seq<u8>) -> Option<JsonV>;

/// What `serde_json::from_str::<Value>` parses `s` to, when `s` is one JSON
/// document.
pub uninterp spec fn json_text(s: Seq<char>) -> Option<JsonV>;

/// A `serde_json::Value` in this model, member for member (numbers as the
/// text `serde_json` prints for them); the parsers below use it.
#[verifier::external_body]
fn value_to_json(v: serde_json::Value) -> Json {
    match v {
        serde_json::Value::Null => Json::Null,
        serde_json::Value::Bool(b) => Json::Bool(b),
        serde_json::Value::Number(n) => Json::Number(n.to_string()),
        serde_json::Value::String(s) => Json::Str(s),
        serde_json::Value::Array(a) => Json::Array(a.into_iter().map(value_to_json).collect()),
        serde_json::Value::Object(o) => Json::Object(o.into_iter().map(|(k, x)| (k, value_to_json(x))).collect()),
    }
}

/// `serde_json::from_slice::<Value>`: the document `b` holds, if any.
#[verifier::external_body]
pub(crate) fn parse_json_slice(b: &[u8]) -> (r: Option<Json>)
    ensures
        match r {
            Some(j) => json_document(b@) == Some(j@),
            None => json_document(b@) is None,
        },
{
    serde_json::from_slice::<serde_json::Value>(b).ok().map(value_to_json)
}

/// `serde_json::from_str::<Value>`: the document `s` holds, if any.
#[verifier::external_body]
pub(crate) fn parse_json_str(s: &str) -> (r: Option<Json>)
    ensures
        match r {
            Some(j) => json_text(s@) == Some(j@),
            None => json_text(s@) is None,
        },
{
    serde_json::from_str::<serde_json::Value>(s).ok().map(value_to_json)
}

impl View for Json {
    type V = JsonV;
    open spec fn view(&self) -> JsonV {
        self.view_of()
    }
}

impl Json {
    pub fn deep_copy(&self) -> (r: Json)
        ensures r@ == self@,
        decreases self,
    {
        match self {
            Json::Null => Json::Null,
            Json::Bool(b) => Json::Bool(*b),
            Json::Number(n) => Json::Number(n.clone()),
            Json::Str(s) => Json::Str(s.clone()),
            Json::Array(a) => {
                let mut out: Vec<Json> = Vec::new();
                let mut i: usize = 0;
                while i < a.len()
                    invariant
                        i <= a.len(),
                        out@.len() == i,
                        forall|j: int| 0 <= j < i ==> (#[trigger] out@[j])@ == a@[j]@,
                        *self == Json::Array(*a),
                    decreases a.len() - i,
                {
                    proof {
                        let ghost sv = *self;
                        assert(decreases_to!(sv => sv->Array_0));
                        assert(decreases_to!(sv->Array_0 => sv->Array_0@));
                        assert(decreases_to!(sv->Array_0@ => sv->Array_0@[i as int]));
                    }
                    let c = a[i].deep_copy();
                    out.push(c);
                    i += 1;
                }
                let r = Json::Array(out);
                assert(r@ =~= self@) by {
                    assert(r@->Array_0 =~= self@->Array_0);
                }
                r
            },
            Json::Object(o) => {
                let mut out: Vec<(String, Json)> = Vec::new();
                let mut i: usize = 0;
                while i < o.len()
                    invariant
                        i <= o.len(),
                        out@.len() == i,
                        forall|j: int| 0 <= j < i ==> (#[trigger] out@[j]).0@ == o@[j].0@ && out@[j].1@ == o@[j].1@,
                        *self == Json::Object(*o),
                    decreases o.len() - i,
                {
                    proof {
                        let ghost sv = *self;
                        assert(decreases_to!(sv => sv->Object_0));
                        assert(decreases_to!(sv->Object_0 => sv->Object_0@));
                        assert(decreases_to!(sv->Object_0@ => sv->Object_0@[i as int]));
                        assert(decreases_to!(sv->Object_0@[i as int] => sv->Object_0@[i as int].1));
                    }
                    let k = o[i].0.clone();
                    let v = o[i].1.deep_copy();
                    out.push((k, v));
                    i += 1;
                }
                let r = Json::Object(out);
                assert(r@->Object_0 =~= self@->Object_0);
                r
            },
        }
    }
}


// ---------------------------------------------------------------------
// Objects as lists of (key, value) entries
// ---------------------------------------------------------------------

pub type Entries = Seq<(Seq<char>, JsonV)>;

/// Index of the first entry whose key is `k`.
pub open spec fn find_key(o: Entries, k: Seq<char>) -> Option<int> {
    if exists|i: int| 0 <= i < o.len() && o[i].0 == k {
        Some(choose|i: int| 0 <= i < o.len() && o[i].0 == k && forall|j: int| 0 <= j < i ==> o[j].0 != k)
    } else {
        None
    }
}

/// The value stored under `k` (the first entry with that key).
pub open spec fn lookup(o: Entries, k: Seq<char>) -> Option<JsonV> {
    match find_key(o, k) {
        Some(i) => Some(o[i].1),
        None => None,
    }
}

/// `o` with `k` set to `v`: the entry for `k` is replaced in place, or a new
/// entry is appended.
pub open spec fn put(o: Entries, k: Seq<char>, v: JsonV) -> Entries {
    match find_key(o, k) {
        Some(i) => o.update(i, (k, v)),
        None => o.push((k, v)),
    }
}

/// `o` without the entry for `k`.
pub open spec fn remove_key(o: Entries, k: Seq<char>) -> Entries {
    match find_key(o, k) {
        Some(i) => o.remove(i),
        None => o,
    }
}

/// The keys of `o`, in order.
pub open spec fn keys_of(o: Entries) -> Seq<Seq<char>> {
    o.map_values(|e: (Seq<char>, JsonV)| e.0)
}

/// `Value::get(key)`: the member `key` of an object, nothing for other values.
pub open spec fn member(v: JsonV, k: Seq<char>) -> Option<JsonV> {
    match v {
        JsonV::Object(o) => lookup(o, k),
        _ => None,
    }
}

pub open spec fn entries_view(o: Seq<(String, Json)>) -> Entries {
    Seq::new(o.len(), |i: int| (o[i].0@, o[i].1@))
}

pub proof fn lemma_object_view(j: Json)
    requires
        j is Object,
    ensures
        j@ == JsonV::Object(entries_view(j->Object_0@)),
{
    assert(j@->Object_0 =~= entries_view(j->Object_0@));
}

pub proof fn lemma_array_view(j: Json)
    requires
        j is Array,
    ensures
        j@ == JsonV::Array(j->Array_0@.map_values(|x: Json| x@)),
{
    assert(j@->Array_0 =~= j->Array_0@.map_values(|x: Json| x@));
}

/// Finds the first entry with key `k`.
pub fn find_entry(o: &Vec<(String, Json)>, k: &str) -> (r: Option<usize>)
    ensures
        match r {
            Some(i) => find_key(entries_view(o@), k@) == Some(i as int) && i < o@.len(),
            None => find_key(entries_view(o@), k@) is None,
        },
{
    let ghost ev = entries_view(o@);
    let mut i: usize = 0;
    while i < o.len()
        invariant
            i <= o@.len(),
            ev == entries_view(o@),
            forall|j: int| 0 <= j < i ==> ev[j].0 != k@,
        decreases o@.len() - i,
    {
        if crate::text::str_eq(o[i].0.as_str(), k) {
            proof {
                assert(ev[i as int].0 == k@);
                let w = find_key(ev, k@)->Some_0;
                assert(0 <= w < ev.len() && ev[w].0 == k@ && forall|j: int| 0 <= j < w ==> ev[j].0 != k@);
                if w < i {
                    assert(false);
                }
                if w > i {
                    assert(false);
                }
            }
            return Some(i);
        }
        i += 1;
    }
    None
}

impl Json {
    /// `Value::get(key)`.
    pub fn get(&self, k: &str) -> (r: Option<&Json>)
        ensures
            match r {
                Some(x) => member(self@, k@) == Some(x@),
                None => member(self@, k@) is None,
            },
    {
        match self {
            Json::Object(o) => {
                proof {
                    lemma_object_view(*self);
                }
                match find_entry(o, k) {
                    Some(i) => Some(&o[i].1),
                    None => None,
                }
            },
            _ => None,
        }
    }

    /// `Value::as_str`.
    pub fn as_str(&self) -> (r: Option<&String>)
        ensures
            match self@ {
                JsonV::Str(s) => r matches Some(x) && x@ == s,
                _ => r is None,
            },
    {
        match self {
            Json::Str(s) => Some(s),
            _ => None,
        }
    }

    /// `Value::as_bool`.
    pub fn as_bool(&self) -> (r: Option<bool>)
        ensures
            match self@ {
                JsonV::Bool(b) => r == Some(b),
                _ => r is None,
            },
    {
        match self {
            Json::Bool(b) => Some(*b),
            _ => None,
        }
    }

    /// `Value::as_array`.
    pub fn as_array(&self) -> (r: Option<&Vec<Json>>)
        ensures
            match self@ {
                JsonV::Array(a) => r matches Some(x) && x@.map_values(|e: Json| e@) == a,
                _ => r is None,
            },
    {
        match self {
            Json::Array(a) => {
                proof {
                    lemma_array_view(*self);
                }
                Some(a)
            },
            _ => None,
        }
    }

    /// `Value::as_u64`: a number written as plain decimal digits that fits
    /// in a `u64` (negative and fractional numbers give `None`).
    pub fn as_u64(&self) -> (r: Option<u64>)
        ensures
            r == json_u64(self@),
    {
        match self {
            Json::Number(t) => {
                let v = crate::text::chars_of(t.as_str());
                if v.len() == 0 {
                    return None;
                }
                let mut i: usize = 0;
                while i < v.len()
                    invariant
                        i <= v@.len(),
                        v@ == t@,
                        *self == Json::Number(*t),
                        forall|j: int| 0 <= j < i ==> crate::text::is_ascii_digit(#[trigger] v@[j]),
                    decreases v@.len() - i,
                {
                    if !crate::text::is_digit(v[i]) {
                        proof {
                            assert(!crate::text::is_ascii_digit(t@[i as int]));
                            assert(!all_digits(t@));
                        }
                        return None;
                    }
                    i += 1;
                }
                match crate::config::parse_u64(t.as_str()) {
                    Ok(n) => Some(n),
                    Err(_) => None,
                }
            },
            _ => None,
        }
    }

    /// The object with exactly these entries, in this order.
    pub fn object(entries: Vec<(String, Json)>) -> (r: Json)
        ensures
            r@ == JsonV::Object(entries_view(entries@)),
    {
        let r = Json::Object(entries);
        proof {
            lemma_object_view(r);
        }
        r
    }

    /// The object with the single member `k: v`.
    pub fn object1(k: &str, v: Json) -> (r: Json)
        ensures
            r@ == JsonV::Object(seq![(k@, v@)]),
    {
        let mut e: Vec<(String, Json)> = Vec::new();
        e.push((k.to_owned(), v));
        proof {
            assert(entries_view(e@) =~= seq![(k@, v@)]);
        }
        Json::object(e)
    }

    /// `{}`.
    pub fn empty_object() -> (r: Json)
        ensures
            r@ == JsonV::Object(Seq::empty()),
            r is Object,
    {
        let r = Json::Object(Vec::new());
        assert(r@->Object_0 =~= Seq::<(Seq<char>, JsonV)>::empty());
        r
    }

    /// A JSON string.
    pub fn string(s: &str) -> (r: Json)
        ensures
            r@ == JsonV::Str(s@),
    {
        Json::Str(s.to_owned())
    }

    /// A JSON number holding a non-negative integer.
    pub fn uint(n: u64) -> (r: Json)
        ensures
            r@ == JsonV::Number(crate::text::decimal(n as nat)),
    {
        Json::Number(crate::text::decimal_string(n))
    }

    /// An array of strings.
    pub fn string_array(v: &Vec<String>) -> (r: Json)
        ensures
            r@ == JsonV::Array(v@.map_values(|s: String| JsonV::Str(s@))),
    {
        let mut out: Vec<Json> = Vec::new();
        let mut i: usize = 0;
        while i < v.len()
            invariant
                i <= v@.len(),
                out@.len() == i,
                forall|j: int| 0 <= j < i ==> (#[trigger] out@[j])@ == JsonV::Str(v@[j]@),
            decreases v@.len() - i,
        {
            out.push(Json::Str(v[i].clone()));
            i += 1;
        }
        let r = Json::Array(out);
        assert(r@->Array_0 =~= v@.map_values(|s: String| JsonV::Str(s@)));
        r
    }
}

/// Every character is an ASCII digit.
pub open spec fn all_digits(t: Seq<char>) -> bool {
    forall|j: int| 0 <= j < t.len() ==> crate::text::is_ascii_digit(#[trigger] t[j])
}

/// The number text of a non-negative integer that fits in a `u64`, read.
pub open spec fn json_u64(v: JsonV) -> Option<u64> {
    match v {
        JsonV::Number(t) => if t.len() > 0 && all_digits(t) {
            crate::config::u64_result(t).ok()
        } else {
            None
        },
        _ => None,
    }
}

/// Sets `k` to `v` in an object's entry list (`Map::insert`).
pub fn put_entry(o: &mut Vec<(String, Json)>, k: String, v: Json)
    ensures
        entries_view(final(o)@) == put(entries_view(old(o)@), k@, v@),
{
    let ghost ev = entries_view(o@);
    match find_entry(o, k.as_str()) {
        Some(i) => {
            o.set(i, (k, v));
            assert(entries_view(o@) =~= ev.update(i as int, (k@, v@)));
        },
        None => {
            o.push((k, v));
            assert(entries_view(o@) =~= ev.push((k@, v@)));
        },
    }
}

/// A JSON object built from `(key, value)` pairs inserted in order.
pub fn object_of(pairs: Vec<(String, Json)>) -> (r: Json)
    ensures
        r@ == JsonV::Object(put_all(Seq::empty(), entries_view(pairs@))),
{
    let mut o: Vec<(String, Json)> = Vec::new();
    let ghost all = entries_view(pairs@);
    let mut pairs = pairs;
    let n = pairs.len();
    let mut i: usize = 0;
    let mut rest: Vec<(String, Json)> = Vec::new();
    proof {
        assert(entries_view(o@) =~= Seq::<(Seq<char>, JsonV)>::empty());
        assert(all.subrange(0, 0) =~= Seq::<(Seq<char>, JsonV)>::empty());
    }
    // Take the pairs front to back by reversing once.
    while pairs.len() > 0
        invariant
            rest@.len() + pairs@.len() == n,
            n == all.len(),
            forall|j: int| 0 <= j < pairs@.len() ==> (#[trigger] entries_view(pairs@)[j]) == all[j],
            forall|j: int| 0 <= j < rest@.len() ==> (#[trigger] entries_view(rest@)[j]) == all[n - 1 - j],
        decreases pairs@.len(),
    {
        let ghost before = pairs@;
        let e = pairs.pop().unwrap();
        proof {
            assert(e == before[before.len() - 1]);
            assert(entries_view(before)[before.len() - 1] == all[before.len() - 1]);
        }
        let ghost rb = rest@;
        rest.push(e);
        proof {
            assert forall|j: int| 0 <= j < pairs@.len() implies (#[trigger] entries_view(pairs@)[j]) == all[j] by {
                assert(pairs@[j] == before[j]);
                assert(entries_view(before)[j] == all[j]);
            }
            assert forall|j: int| 0 <= j < rest@.len() implies (#[trigger] entries_view(rest@)[j]) == all[n - 1 - j] by {
                if j < rb.len() {
                    assert(rest@[j] == rb[j]);
                    assert(entries_view(rb)[j] == all[n - 1 - j]);
                }
            }
        }
    }
    while i < n
        invariant
            i <= n,
            rest@.len() == n - i,
            n == all.len(),
            forall|j: int| 0 <= j < rest@.len() ==> (#[trigger] entries_view(rest@)[j]) == all[n - 1 - j],
            entries_view(o@) == put_all(Seq::empty(), all.subrange(0, i as int)),
        decreases n - i,
    {
        let ghost rb = rest@;
        let (k, v) = rest.pop().unwrap();
        proof {
            assert(entries_view(rb)[rb.len() - 1] == all[i as int]);
            assert(all.subrange(0, i + 1).drop_last() =~= all.subrange(0, i as int));
        }
        put_entry(&mut o, k, v);
        proof {
            assert forall|j: int| 0 <= j < rest@.len() implies (#[trigger] entries_view(rest@)[j]) == all[n - 1 - j] by {
                assert(rest@[j] == rb[j]);
                assert(entries_view(rb)[j] == all[n - 1 - j]);
            }
        }
        i += 1;
    }
    proof {
        assert(all.subrange(0, n as int) =~= all);
    }
    let r = Json::Object(o);
    proof {
        lemma_object_view(r);
    }
    r
}

/// Inserting the entries `es` into `o` one after the other.
pub open spec fn put_all(o: Entries, es: Entries) -> Entries
    decreases es.len(),
{
    if es.len() == 0 {
        o
    } else {
        put(put_all(o, es.drop_last()), es.last().0, es.last().1)
    }
}


/// Whether no two entries of `o` share a key.
pub open spec fn keys_distinct(o: Entries) -> bool {
    forall|i: int, j: int| 0 <= i < j < o.len() ==> (#[trigger] o[i]).0 != (#[trigger] o[j]).0
}

/// When some entry holds `k`, `find_key` names the first such entry.
pub proof fn lemma_find_key_first(o: Entries, k: Seq<char>, i: int)
    requires
        0 <= i < o.len(),
        o[i].0 == k,
    ensures
        find_key(o, k) matches Some(j) && 0 <= j <= i && o[j].0 == k
            && forall|m: int| 0 <= m < j ==> o[m].0 != k,
    decreases i,
{
    if exists|m: int| 0 <= m < i && o[m].0 == k {
        let m = choose|m: int| 0 <= m < i && o[m].0 == k;
        lemma_find_key_first(o, k, m);
    } else {
        assert(0 <= i < o.len() && o[i].0 == k && forall|j: int| 0 <= j < i ==> o[j].0 != k);
    }
}

/// Putting entries with distinct keys one by one into an empty object keeps
/// them all, in order.
pub proof fn lemma_put_all_distinct(es: Entries)
    requires
        keys_distinct(es),
    ensures
        put_all(Seq::empty(), es) == es,
    decreases es.len(),
{
    if es.len() > 0 {
        let init = es.drop_last();
        assert forall|i: int, j: int| 0 <= i < j < init.len() implies (#[trigger] init[i]).0 != (#[trigger] init[j]).0 by {
            assert(init[i] == es[i] && init[j] == es[j]);
        }
        lemma_put_all_distinct(init);
        let k = es.last().0;
        assert(!exists|i: int| 0 <= i < init.len() && init[i].0 == k) by {
            assert forall|i: int| 0 <= i < init.len() implies init[i].0 != k by {
                assert(init[i] == es[i]);
                assert(es[i].0 != es[es.len() - 1].0);
            }
        }
        assert(init.push(es.last()) =~= es);
    }
}


/// When `find_key` names an entry, it is the first entry holding `k`.
pub proof fn lemma_find_key_some(o: Entries, k: Seq<char>)
    requires
        find_key(o, k) is Some,
    ensures
        find_key(o, k) matches Some(i) && 0 <= i < o.len() && o[i].0 == k
            && forall|m: int| 0 <= m < i ==> o[m].0 != k,
{
    let w = choose|w: int| 0 <= w < o.len() && o[w].0 == k;
    lemma_find_key_first(o, k, w);
}


/// In an object without repeated keys, each entry is what its key looks up.
pub proof fn lemma_lookup_distinct(o: Entries, i: int)
    requires
        keys_distinct(o),
        0 <= i < o.len(),
    ensures
        lookup(o, o[i].0) == Some(o[i].1),
{
    lemma_find_key_first(o, o[i].0, i);
    let j = find_key(o, o[i].0)->0;
    if j != i {
        assert(o[j].0 != o[i].0);
    }
}

} // verus!
