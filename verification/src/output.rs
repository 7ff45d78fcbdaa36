//! What goes to stdout: key renaming, `--fields` dot-path projection and the
//! format options. Writing the bytes is the caller's business.

use vstd::prelude::*;
use crate::json::{
    keys_of, put_all, remove_key, find_key, lemma_find_key_first, lemma_find_key_some, lemma_array_view, entries_view, find_entry, lemma_object_view, lookup, member, put, put_entry, Entries, Json, JsonV,
};
use crate::strmap::StrMap;
use crate::text::{lemma_split_nonempty, split_char, split_spec, trim, trim_spec};

verus! {

/// Output format selector (mirrors the CLI flag).
#[derive(Debug, Clone, Copy, PartialEq, Eq, Structural)]
pub enum Format {
    Json,
    Jsonl,
}

/// How one value is written: format, pretty-printing, projection and renames.
pub struct OutputOptions {
    pub format: Format,
    pub pretty: bool,
    pub fields: Option<Vec<String>>,
    /// If set, keys are renamed before field projection.
    pub renames: Option<StrMap>,
}

// ---------------------------------------------------------------------
// Comma-separated lists
// ---------------------------------------------------------------------

/// The trimmed, non-empty pieces of `raw` split at `sep`, in order.
pub open spec fn csv_spec(raw: Seq<char>, sep: char) -> Seq<Seq<char>> {
    split_spec(raw, sep).map_values(|p: Seq<char>| trim_spec(p)).filter(|p: Seq<char>| p.len() > 0)
}

/// Splits at `sep`, trims every piece and drops the empty ones.
pub fn split_trim_nonempty(raw: &str, sep: char) -> (r: Vec<String>)
    ensures
        r@.map_values(|s: String| s@) == csv_spec(raw@, sep),
{
    let parts = split_char(raw, sep);
    let ghost trimmed = split_spec(raw@, sep).map_values(|p: Seq<char>| trim_spec(p));
    let mut r: Vec<String> = Vec::new();
    let mut i: usize = 0;
    proof {
        assert(trimmed.subrange(0, 0).filter(|p: Seq<char>| p.len() > 0) =~= Seq::<Seq<char>>::empty());
    }
    while i < parts.len()
        invariant
            i <= parts@.len(),
            parts@.len() == trimmed.len(),
            forall|j: int| 0 <= j < parts@.len() ==> (#[trigger] parts@[j])@ == split_spec(raw@, sep)[j],
            trimmed == split_spec(raw@, sep).map_values(|p: Seq<char>| trim_spec(p)),
            r@.map_values(|s: String| s@) == trimmed.subrange(0, i as int).filter(|p: Seq<char>| p.len() > 0),
        decreases parts@.len() - i,
    {
        let t = trim(parts[i].as_str());
        let ghost pre = trimmed.subrange(0, i as int);
        proof {
            assert(trimmed.subrange(0, i + 1).drop_last() =~= pre);
            assert(trimmed.subrange(0, i + 1).last() == t@);
            reveal_with_fuel(Seq::filter, 1);
        }
        if !t.as_str().is_empty() {
            let ghost rb = r@;
            r.push(t);
            proof {
                assert(r@.map_values(|s: String| s@) =~= rb.map_values(|s: String| s@).push(r@.last()@));
            }
        }
        i += 1;
    }
    proof {
        assert(trimmed.subrange(0, parts@.len() as int) =~= trimmed);
    }
    r
}

/// A piece of a comma-separated list as it comes out: nonempty, without a
/// comma, and without white space at either end.
pub open spec fn list_item(p: Seq<char>) -> bool {
    &&& p.len() > 0
    &&& forall|k: int| 0 <= k < p.len() ==> #[trigger] p[k] != ','
    &&& !crate::text::is_white_space(p[0])
    &&& !crate::text::is_white_space(p.last())
}

proof fn lemma_split_no_sep(s: Seq<char>, sep: char)
    ensures
        forall|i: int, k: int| 0 <= i < split_spec(s, sep).len() && 0 <= k < split_spec(s, sep)[i].len()
            ==> #[trigger] split_spec(s, sep)[i][k] != sep,
    decreases s.len(),
{
    if s.len() > 0 {
        let t = s.drop_last();
        lemma_split_no_sep(t, sep);
        crate::text::lemma_split_nonempty(t, sep);
        let r = split_spec(t, sep);
        if s.last() != sep {
            let u = r.update(r.len() - 1, r.last().push(s.last()));
            assert forall|i: int, k: int| 0 <= i < u.len() && 0 <= k < u[i].len() implies #[trigger] u[i][k] != sep by {
                if i < r.len() - 1 {
                    assert(u[i] == r[i]);
                } else if k < r.last().len() {
                    assert(u[i][k] == r[r.len() - 1][k]);
                }
            }
        } else {
            let u = r.push(Seq::<char>::empty());
            assert forall|i: int, k: int| 0 <= i < u.len() && 0 <= k < u[i].len() implies #[trigger] u[i][k] != sep by {
                assert(u[i] == r[i]);
            }
        }
    }
}

proof fn lemma_trim_item(p: Seq<char>)
    requires
        forall|k: int| 0 <= k < p.len() ==> #[trigger] p[k] != ',',
        trim_spec(p).len() > 0,
    ensures
        list_item(trim_spec(p)),
{
    crate::text::lemma_lead_ws_bound(p);
    crate::text::lemma_trail_ws_bound(p);
    let a = crate::text::lead_ws(p) as int;
    let t = crate::text::trail_ws(p) as int;
    assert(a < p.len());
    if a >= p.len() - t {
        assert(crate::text::is_white_space(p[a]));
    }
    let q = trim_spec(p);
    assert(q == p.subrange(a, p.len() - t));
    assert(q[0] == p[a]);
    assert(q[q.len() - 1] == p[p.len() - t - 1]);
    assert forall|k: int| 0 <= k < q.len() implies #[trigger] q[k] != ',' by {
        assert(q[k] == p[a + k]);
    }
}

proof fn lemma_filter_items(s: Seq<Seq<char>>, f: Seq<Seq<char>>)
    requires
        forall|i: int| 0 <= i < s.len() && (#[trigger] s[i]).len() > 0 ==> list_item(s[i]),
        f == s.filter(|p: Seq<char>| p.len() > 0),
    ensures
        forall|i: int| 0 <= i < f.len() ==> list_item(#[trigger] f[i]),
    decreases s.len(),
{
    reveal(Seq::filter);
    if s.len() > 0 {
        let t = s.drop_last();
        assert forall|i: int| 0 <= i < t.len() && (#[trigger] t[i]).len() > 0 implies list_item(t[i]) by {
            assert(t[i] == s[i]);
        }
        let g = t.filter(|p: Seq<char>| p.len() > 0);
        lemma_filter_items(t, g);
        assert(s.last() == s[s.len() - 1]);
        assert forall|i: int| 0 <= i < f.len() implies list_item(#[trigger] f[i]) by {
            if i < g.len() {
                assert(f[i] == g[i]);
            }
        }
    }
}

/// Every item of a parsed `--fields` list is nonempty, holds no comma and
/// has no white space at either end.
pub proof fn lemma_field_list_items(raw: Seq<char>)
    ensures
        forall|i: int| 0 <= i < csv_spec(raw, ',').len() ==> list_item(#[trigger] csv_spec(raw, ',')[i]),
{
    let parts = split_spec(raw, ',');
    let trimmed = parts.map_values(|p: Seq<char>| trim_spec(p));
    lemma_split_no_sep(raw, ',');
    assert forall|i: int| 0 <= i < trimmed.len() && (#[trigger] trimmed[i]).len() > 0 implies list_item(trimmed[i]) by {
        assert forall|k: int| 0 <= k < parts[i].len() implies #[trigger] parts[i][k] != ',' by {
            assert(split_spec(raw, ',')[i][k] != ',');
        }
        lemma_trim_item(parts[i]);
    }
    lemma_filter_items(trimmed, csv_spec(raw, ','));
}

proof fn lemma_split_append(a: Seq<char>, b: Seq<char>)
    requires
        forall|k: int| 0 <= k < b.len() ==> #[trigger] b[k] != ',',
    ensures
        split_spec(a + ","@ + b, ',') == split_spec(a, ',').push(b),
    decreases b.len(),
{
    reveal_strlit(",");
    let s = a + ","@ + b;
    if b.len() == 0 {
        assert(s.drop_last() =~= a);
        assert(s.last() == ',');
        assert(b =~= Seq::<char>::empty());
        assert(split_spec(s, ',') == split_spec(s.drop_last(), ',').push(Seq::<char>::empty()));
    } else {
        let t = b.drop_last();
        lemma_split_append(a, t);
        assert(s.drop_last() =~= a + ","@ + t);
        assert(s.last() == b[b.len() - 1]);
        assert(b[b.len() - 1] != ',');
        let r = split_spec(a, ',').push(t);
        assert(split_spec(s, ',') == r.update(r.len() - 1, r.last().push(s.last())));
        assert(r.update(r.len() - 1, r.last().push(b.last())) =~= split_spec(a, ',').push(b)) by {
            assert(t.push(b.last()) =~= b);
        }
    }
}

proof fn lemma_split_single(b: Seq<char>)
    requires
        forall|k: int| 0 <= k < b.len() ==> #[trigger] b[k] != ',',
    ensures
        split_spec(b, ',') == seq![b],
    decreases b.len(),
{
    if b.len() == 0 {
        assert(b =~= Seq::<char>::empty());
    } else {
        let t = b.drop_last();
        lemma_split_single(t);
        assert(b[b.len() - 1] != ',');
        assert(split_spec(b, ',') == seq![t].update(0, seq![t].last().push(b.last())));
        assert(seq![t].update(0, t.push(b.last())) =~= seq![b]) by {
            assert(t.push(b.last()) =~= b);
        }
    }
}

proof fn lemma_split_join(items: Seq<Seq<char>>)
    requires
        items.len() > 0,
        forall|i: int| 0 <= i < items.len() ==> list_item(#[trigger] items[i]),
    ensures
        split_spec(crate::error::join(items, ","@), ',') == items,
    decreases items.len(),
{
    if items.len() == 1 {
        assert(list_item(items[0]));
        lemma_split_single(items[0]);
        assert(seq![items[0]] =~= items);
    } else {
        let init = items.drop_last();
        assert forall|i: int| 0 <= i < init.len() implies list_item(#[trigger] init[i]) by {
            assert(init[i] == items[i]);
        }
        lemma_split_join(init);
        assert(list_item(items[items.len() - 1]));
        lemma_split_append(crate::error::join(init, ","@), items.last());
        assert(init.push(items.last()) =~= items);
    }
}

proof fn lemma_trim_item_same(p: Seq<char>)
    requires
        list_item(p),
    ensures
        trim_spec(p) == p,
{
    assert(crate::text::lead_ws(p) == 0);
    assert(crate::text::trail_ws(p) == 0);
    assert(p.subrange(0, p.len() as int) =~= p);
}

proof fn lemma_filter_all_kept(s: Seq<Seq<char>>, f: Seq<Seq<char>>)
    requires
        forall|i: int| 0 <= i < s.len() ==> (#[trigger] s[i]).len() > 0,
        f == s.filter(|p: Seq<char>| p.len() > 0),
    ensures
        f == s,
    decreases s.len(),
{
    reveal(Seq::filter);
    if s.len() > 0 {
        let t = s.drop_last();
        assert forall|i: int| 0 <= i < t.len() implies (#[trigger] t[i]).len() > 0 by {
            assert(t[i] == s[i]);
        }
        lemma_filter_all_kept(t, t.filter(|p: Seq<char>| p.len() > 0));
        assert(s[s.len() - 1].len() > 0);
        assert(t.push(s.last()) =~= s);
    } else {
        assert(f =~= s);
    }
}

/// Joining a parsed list with commas and parsing it again gives the list
/// back.
pub proof fn lemma_field_list_roundtrip(items: Seq<Seq<char>>)
    requires
        forall|i: int| 0 <= i < items.len() ==> list_item(#[trigger] items[i]),
    ensures
        csv_spec(crate::error::join(items, ","@), ',') == items,
{
    let joined = crate::error::join(items, ","@);
    if items.len() == 0 {
        assert(joined == Seq::<char>::empty());
        assert(split_spec(joined, ',') == seq![Seq::<char>::empty()]);
        let m = split_spec(joined, ',').map_values(|p: Seq<char>| trim_spec(p));
        assert(m =~= seq![trim_spec(Seq::<char>::empty())]);
        assert(trim_spec(Seq::<char>::empty()) == Seq::<char>::empty());
        reveal_with_fuel(Seq::filter, 2);
        assert(m.drop_last() =~= Seq::<Seq<char>>::empty());
        assert(m.filter(|p: Seq<char>| p.len() > 0) =~= Seq::<Seq<char>>::empty());
    } else {
        lemma_split_join(items);
        let m = split_spec(joined, ',').map_values(|p: Seq<char>| trim_spec(p));
        assert forall|i: int| 0 <= i < items.len() implies #[trigger] m[i] == items[i] by {
            lemma_trim_item_same(items[i]);
        }
        assert(m =~= items);
        assert forall|i: int| 0 <= i < items.len() implies (#[trigger] items[i]).len() > 0 by {
            assert(list_item(items[i]));
        }
        lemma_filter_all_kept(items, csv_spec(joined, ','));
    }
}

/// `--fields` parser: comma-separated, trimmed, empties dropped.
pub fn parse_field_list(raw: &str) -> (r: Vec<String>)
    ensures
        r@.map_values(|s: String| s@) == csv_spec(raw@, ','),
{
    split_trim_nonempty(raw, ',')
}

// ---------------------------------------------------------------------
// Dot-path projection
// ---------------------------------------------------------------------

/// The value at `segs` below `v`: every segment names an object member.
pub open spec fn fetch_path(v: JsonV, segs: Seq<Seq<char>>) -> Option<JsonV>
    decreases segs.len(),
{
    if segs.len() == 0 {
        Some(v)
    } else {
        match member(v, segs[0]) {
            Some(c) => fetch_path(c, segs.drop_first()),
            None => None,
        }
    }
}

/// The entries of `v` if it is an object, none otherwise.
pub open spec fn entries_or_empty(v: JsonV) -> Entries {
    match v {
        JsonV::Object(o) => o,
        _ => Seq::empty(),
    }
}

/// `dest` with `val` stored at `segs`; intermediate members that are missing
/// or are not objects become objects.
pub open spec fn set_path(dest: JsonV, segs: Seq<Seq<char>>, val: JsonV) -> JsonV
    decreases segs.len(),
{
    let o = entries_or_empty(dest);
    if segs.len() <= 1 {
        JsonV::Object(put(o, segs[0], val))
    } else {
        let child = match lookup(o, segs[0]) {
            Some(c) => if c is Object { c } else { JsonV::Object(Seq::empty()) },
            None => JsonV::Object(Seq::empty()),
        };
        JsonV::Object(put(o, segs[0], set_path(child, segs.drop_first(), val)))
    }
}

/// `project_fields`: for each path in turn that exists in `v`, its value is
/// copied to the same path of the result, which starts as `{}`.
pub open spec fn project_spec(v: JsonV, paths: Seq<Seq<char>>) -> JsonV
    decreases paths.len(),
{
    if paths.len() == 0 {
        JsonV::Object(Seq::empty())
    } else {
        let out = project_spec(v, paths.drop_last());
        let segs = split_spec(paths.last(), '.');
        match fetch_path(v, segs) {
            Some(found) => set_path(out, segs, found),
            None => out,
        }
    }
}

pub proof fn lemma_lookup_put_same(o: Entries, k: Seq<char>, v: JsonV)
    ensures
        lookup(put(o, k, v), k) == Some(v),
{
    let p = put(o, k, v);
    if find_key(o, k) is Some {
        lemma_find_key_some(o, k);
        let i = find_key(o, k)->0;
        assert forall|m: int| 0 <= m < i implies (#[trigger] p[m]).0 != k by {
            assert(p[m] == o[m]);
        }
        lemma_lookup_first(p, k, i, v);
    } else {
        assert forall|m: int| 0 <= m < o.len() implies (#[trigger] p[m]).0 != k by {
            assert(p[m] == o[m]);
            assert(!(0 <= m < o.len() && o[m].0 == k));
        }
        lemma_lookup_first(p, k, o.len() as int, v);
    }
}

pub proof fn lemma_lookup_put_other(o: Entries, t: Seq<char>, w: JsonV, k: Seq<char>)
    requires
        t != k,
    ensures
        lookup(put(o, t, w), k) == lookup(o, k),
{
    if find_key(o, k) is Some {
        lemma_find_key_some(o, k);
        let j = find_key(o, k)->0;
        lemma_put_other(o, t, w, k, j, o[j].1);
        lemma_lookup_first(put(o, t, w), k, j, o[j].1);
    } else {
        assert(key_absent(o, k));
        lemma_put_other_absent(o, t, w, k);
        let p = put(o, t, w);
        assert(!exists|i: int| 0 <= i < p.len() && p[i].0 == k);
    }
}

/// The value of the last entry of `es` with key `k`.
pub open spec fn last_value(es: Entries, k: Seq<char>) -> Option<JsonV>
    decreases es.len(),
{
    if es.len() == 0 {
        None
    } else if es.last().0 == k {
        Some(es.last().1)
    } else {
        last_value(es.drop_last(), k)
    }
}

/// Putting entries in turn: a key ends up with the value of its last entry,
/// and keys that no entry names keep what they had.
pub proof fn lemma_put_all_lookup(o: Entries, es: Entries, k: Seq<char>)
    ensures
        lookup(put_all(o, es), k) == match last_value(es, k) {
            Some(v) => Some(v),
            None => lookup(o, k),
        },
    decreases es.len(),
{
    if es.len() > 0 {
        let init = es.drop_last();
        lemma_put_all_lookup(o, init, k);
        if es.last().0 == k {
            lemma_lookup_put_same(put_all(o, init), k, es.last().1);
        } else {
            lemma_lookup_put_other(put_all(o, init), es.last().0, es.last().1, k);
        }
    }
}

/// The last entry for `k` in `a + b` is `b`'s when `b` has one, else `a`'s.
pub proof fn lemma_last_value_concat(a: Entries, b: Entries, k: Seq<char>)
    ensures
        last_value(a + b, k) == match last_value(b, k) {
            Some(v) => Some(v),
            None => last_value(a, k),
        },
    decreases b.len(),
{
    if b.len() == 0 {
        assert(a + b =~= a);
    } else {
        assert((a + b).drop_last() =~= a + b.drop_last());
        assert((a + b).last() == b.last());
        lemma_last_value_concat(a, b.drop_last(), k);
    }
}

proof fn lemma_last_value_absent(es: Entries, k: Seq<char>)
    requires
        forall|i: int| 0 <= i < es.len() ==> (#[trigger] es[i]).0 != k,
    ensures
        last_value(es, k) is None,
    decreases es.len(),
{
    if es.len() > 0 {
        assert(es[es.len() - 1].0 != k);
        let t = es.drop_last();
        assert forall|i: int| 0 <= i < t.len() implies (#[trigger] t[i]).0 != k by {
            assert(t[i] == es[i]);
        }
        lemma_last_value_absent(t, k);
    }
}

/// With no entry of `b` for `k`, the last entry for `k` in `a + b` is `a`'s.
pub proof fn lemma_last_value_unset(a: Entries, b: Entries, k: Seq<char>)
    requires
        forall|i: int| 0 <= i < b.len() ==> (#[trigger] b[i]).0 != k,
    ensures
        last_value(a + b, k) == last_value(a, k),
{
    lemma_last_value_absent(b, k);
    lemma_last_value_concat(a, b, k);
}

/// Two dot-paths part ways: after a common start they name different
/// members (neither is the other or lies below it).
pub open spec fn paths_diverge(a: Seq<Seq<char>>, b: Seq<Seq<char>>) -> bool
    decreases a.len(),
{
    a.len() > 0 && b.len() > 0 && (a[0] != b[0] || paths_diverge(a.drop_first(), b.drop_first()))
}

/// Storing a value at a path makes it the value found there.
pub proof fn lemma_set_then_fetch(d: JsonV, segs: Seq<Seq<char>>, x: JsonV)
    requires
        segs.len() > 0,
    ensures
        fetch_path(set_path(d, segs, x), segs) == Some(x),
    decreases segs.len(),
{
    let o = entries_or_empty(d);
    let r = set_path(d, segs, x);
    if segs.len() == 1 {
        lemma_lookup_put_same(o, segs[0], x);
        assert(r == JsonV::Object(put(o, segs[0], x)));
        assert(member(r, segs[0]) == Some(x));
        assert(segs.drop_first().len() == 0);
        assert(fetch_path(r, segs) == fetch_path(x, segs.drop_first()));
    } else {
        let child = match lookup(o, segs[0]) {
            Some(c) => if c is Object { c } else { JsonV::Object(Seq::empty()) },
            None => JsonV::Object(Seq::empty()),
        };
        let sub = set_path(child, segs.drop_first(), x);
        lemma_lookup_put_same(o, segs[0], sub);
        assert(r == JsonV::Object(put(o, segs[0], sub)));
        assert(member(r, segs[0]) == Some(sub));
        lemma_set_then_fetch(child, segs.drop_first(), x);
        assert(fetch_path(r, segs) == fetch_path(sub, segs.drop_first()));
    }
}

proof fn lemma_fetch_empty_object(q: Seq<Seq<char>>)
    requires
        q.len() > 0,
    ensures
        fetch_path(JsonV::Object(Seq::empty()), q) is None,
{
    assert(lookup(Seq::<(Seq<char>, JsonV)>::empty(), q[0]) is None);
}

/// Storing a value at a path leaves every path that parts ways with it as
/// it was: the other members of the objects on the way are kept.
pub proof fn lemma_set_keeps_others(d: JsonV, segs: Seq<Seq<char>>, x: JsonV, q: Seq<Seq<char>>)
    requires
        paths_diverge(q, segs),
    ensures
        fetch_path(set_path(d, segs, x), q) == fetch_path(d, q),
    decreases q.len(),
{
    let o = entries_or_empty(d);
    let r = set_path(d, segs, x);
    assert(member(d, q[0]) == lookup(o, q[0])) by {
        if !(d is Object) {
            assert(lookup(o, q[0]) is None);
        }
    }
    if q[0] != segs[0] {
        if segs.len() <= 1 {
            lemma_lookup_put_other(o, segs[0], x, q[0]);
            assert(r == JsonV::Object(put(o, segs[0], x)));
        } else {
            let child = match lookup(o, segs[0]) {
                Some(c) => if c is Object { c } else { JsonV::Object(Seq::empty()) },
                None => JsonV::Object(Seq::empty()),
            };
            lemma_lookup_put_other(o, segs[0], set_path(child, segs.drop_first(), x), q[0]);
            assert(r == JsonV::Object(put(o, segs[0], set_path(child, segs.drop_first(), x))));
        }
        assert(member(r, q[0]) == member(d, q[0]));
        match member(d, q[0]) {
            Some(c) => {
                assert(fetch_path(r, q) == fetch_path(c, q.drop_first()));
                assert(fetch_path(d, q) == fetch_path(c, q.drop_first()));
            },
            None => {
                assert(fetch_path(r, q) is None);
                assert(fetch_path(d, q) is None);
            },
        }
    } else {
        assert(paths_diverge(q.drop_first(), segs.drop_first()));
        assert(segs.len() >= 2);
        let child = match lookup(o, segs[0]) {
            Some(c) => if c is Object { c } else { JsonV::Object(Seq::empty()) },
            None => JsonV::Object(Seq::empty()),
        };
        let sub = set_path(child, segs.drop_first(), x);
        lemma_lookup_put_same(o, segs[0], sub);
        assert(r == JsonV::Object(put(o, segs[0], sub)));
        assert(member(r, q[0]) == Some(sub));
        lemma_set_keeps_others(child, segs.drop_first(), x, q.drop_first());
        assert(fetch_path(r, q) == fetch_path(sub, q.drop_first()));
        let q1 = q.drop_first();
        assert(q1.len() > 0);
        match lookup(o, segs[0]) {
            Some(c) => {
                assert(fetch_path(d, q) == fetch_path(c, q1));
                if !(c is Object) {
                    lemma_fetch_empty_object(q1);
                    assert(member(c, q1[0]) is None);
                    assert(fetch_path(c, q1) is None);
                }
            },
            None => {
                lemma_fetch_empty_object(q1);
                assert(fetch_path(d, q) is None);
            },
        }
    }
}

/// `--fields` keeps every listed value: a path whose value exists in the
/// input holds that value in the projection, unless a later path overlaps it
/// (is the same path, or lies above or below it).
pub proof fn lemma_projection_keeps_paths(v: JsonV, paths: Seq<Seq<char>>, i: int)
    requires
        0 <= i < paths.len(),
        fetch_path(v, split_spec(paths[i], '.')) is Some,
        forall|j: int| i < j < paths.len() ==> paths_diverge(split_spec(paths[i], '.'), #[trigger] split_spec(paths[j], '.')),
    ensures
        fetch_path(project_spec(v, paths), split_spec(paths[i], '.')) == fetch_path(v, split_spec(paths[i], '.')),
    decreases paths.len(),
{
    let si = split_spec(paths[i], '.');
    crate::text::lemma_split_nonempty(paths[i], '.');
    let init = paths.drop_last();
    let sl = split_spec(paths.last(), '.');
    crate::text::lemma_split_nonempty(paths.last(), '.');
    if i == paths.len() - 1 {
        lemma_set_then_fetch(project_spec(v, init), sl, fetch_path(v, sl)->0);
    } else {
        assert(init[i] == paths[i]);
        assert forall|j: int| i < j < init.len() implies paths_diverge(split_spec(init[i], '.'), #[trigger] split_spec(init[j], '.')) by {
            assert(init[j] == paths[j]);
        }
        lemma_projection_keeps_paths(v, init, i);
        assert(paths_diverge(si, split_spec(paths[paths.len() - 1], '.')));
        match fetch_path(v, sl) {
            Some(found) => lemma_set_keeps_others(project_spec(v, init), sl, found, si),
            None => {},
        }
    }
}


fn fetch_path_exec(v: &Json, segs: &Vec<String>, from: usize) -> (r: Option<Json>)
    requires
        from <= segs@.len(),
    ensures
        match fetch_path(v@, segs@.map_values(|s: String| s@).subrange(from as int, segs@.len() as int)) {
            Some(x) => r matches Some(y) && y@ == x,
            None => r is None,
        },
    decreases segs@.len() - from,
{
    let ghost rest = segs@.map_values(|s: String| s@).subrange(from as int, segs@.len() as int);
    if from == segs.len() {
        return Some(v.deep_copy());
    }
    proof {
        assert(rest[0] == segs@[from as int]@);
        assert(rest.drop_first() =~= segs@.map_values(|s: String| s@).subrange(from + 1, segs@.len() as int));
    }
    match v.get(segs[from].as_str()) {
        Some(c) => fetch_path_exec(c, segs, from + 1),
        None => None,
    }
}

#[verifier::rlimit(40)]
fn set_path_exec(dest: &Json, segs: &Vec<String>, from: usize, val: &Json) -> (r: Json)
    requires
        from < segs@.len(),
    ensures
        r@ == set_path(dest@, segs@.map_values(|s: String| s@).subrange(from as int, segs@.len() as int), val@),
    decreases segs@.len() - from,
{
    let ghost rest = segs@.map_values(|s: String| s@).subrange(from as int, segs@.len() as int);
    let mut o: Vec<(String, Json)> = match dest {
        Json::Object(entries) => {
            proof {
                lemma_object_view(*dest);
            }
            let c = dest.deep_copy();
            match c {
                Json::Object(e) => e,
                _ => Vec::new(),
            }
        },
        _ => Vec::new(),
    };
    proof {
        if dest@ is Object {
            assert(entries_view(o@) == entries_or_empty(dest@));
        } else {
            assert(entries_view(o@) =~= entries_or_empty(dest@));
        }
        assert(rest[0] == segs@[from as int]@);
    }
    let key = segs[from].clone();
    if from == segs.len() - 1 {
        put_entry(&mut o, key, val.deep_copy());
    } else {
        proof {
            assert(rest.drop_first() =~= segs@.map_values(|s: String| s@).subrange(from + 1, segs@.len() as int));
        }
        let child: Json = match find_entry(&o, key.as_str()) {
            Some(i) => {
                match &o[i].1 {
                    Json::Object(_) => o[i].1.deep_copy(),
                    _ => Json::empty_object(),
                }
            },
            None => Json::empty_object(),
        };
        let sub = set_path_exec(&child, segs, from + 1, val);
        put_entry(&mut o, key, sub);
    }
    let r = Json::Object(o);
    proof {
        lemma_object_view(r);
    }
    r
}

/// Projects `value` onto the dot-paths in `fields`; missing paths are left out.
pub fn project_fields(value: &Json, fields: &Vec<String>) -> (r: Json)
    ensures
        r@ == project_spec(value@, fields@.map_values(|s: String| s@)),
{
    let mut out = Json::empty_object();
    let ghost paths = fields@.map_values(|s: String| s@);
    let mut i: usize = 0;
    proof {
        assert(paths.subrange(0, 0).len() == 0);
    }
    while i < fields.len()
        invariant
            i <= fields@.len(),
            paths == fields@.map_values(|s: String| s@),
            out@ == project_spec(value@, paths.subrange(0, i as int)),
        decreases fields@.len() - i,
    {
        let segs = split_char(fields[i].as_str(), '.');
        let ghost sp = split_spec(fields@[i as int]@, '.');
        proof {
            assert(paths.subrange(0, i + 1).drop_last() =~= paths.subrange(0, i as int));
            assert(paths.subrange(0, i + 1).last() == fields@[i as int]@);
            assert(segs@.map_values(|s: String| s@).subrange(0, segs@.len() as int) =~= sp);
            lemma_split_nonempty(fields@[i as int]@, '.');
        }
        match fetch_path_exec(value, &segs, 0) {
            Some(found) => {
                out = set_path_exec(&out, &segs, 0, &found);
            },
            None => {},
        }
        i += 1;
    }
    proof {
        assert(paths.subrange(0, fields@.len() as int) =~= paths);
    }
    out
}


// ---------------------------------------------------------------------
// Key renaming
// ---------------------------------------------------------------------

/// One level of renaming: the keys `keys` are visited in order, and a key that
/// has a new name in `r` is removed and its value stored under the new name.
pub open spec fn rename_level(o: Entries, keys: Seq<Seq<char>>, r: Map<Seq<char>, Seq<char>>) -> Entries
    decreases keys.len(),
{
    if keys.len() == 0 {
        o
    } else {
        let prev = rename_level(o, keys.drop_last(), r);
        let k = keys.last();
        if r.contains_key(k) {
            match lookup(prev, k) {
                Some(v) => put(remove_key(prev, k), r[k], v),
                None => prev,
            }
        } else {
            prev
        }
    }
}

/// `rename_keys`: every object, at every depth, has its keys renamed by `r`
/// (keys visited in the object's order; values are renamed too).
pub open spec fn renamed(v: JsonV, r: Map<Seq<char>, Seq<char>>) -> JsonV
    decreases v, 1nat,
{
    if r.len() == 0 {
        v
    } else {
        match v {
            JsonV::Object(o) => JsonV::Object(rename_level(renamed_children(o, r), keys_of(o), r)),
            JsonV::Array(a) => JsonV::Array(
                Seq::new(a.len(), |i: int| if 0 <= i < a.len() { renamed(a[i], r) } else { JsonV::Null }),
            ),
            _ => v,
        }
    }
}

/// The entries of `o` with their values renamed (keys untouched).
pub open spec fn renamed_children(o: Entries, r: Map<Seq<char>, Seq<char>>) -> Entries
    decreases o, 0nat,
{
    Seq::new(
        o.len(),
        |i: int| if 0 <= i < o.len() { (o[i].0, renamed(o[i].1, r)) } else { (Seq::empty(), JsonV::Null) },
    )
}

/// Renaming by an empty map changes nothing.
pub proof fn lemma_rename_empty_noop(v: JsonV)
    ensures
        renamed(v, Map::empty()) == v,
{
    assert(Map::<Seq<char>, Seq<char>>::empty().len() == 0);
}

/// Entry `j` of `o` is the first one with key `k`, and holds `v`.
pub open spec fn first_entry(o: Entries, k: Seq<char>, j: int, v: JsonV) -> bool {
    &&& 0 <= j < o.len()
    &&& o[j] == (k, v)
    &&& forall|m: int| 0 <= m < j ==> (#[trigger] o[m]).0 != k
}

/// No entry of `o` has key `k`.
pub open spec fn key_absent(o: Entries, k: Seq<char>) -> bool {
    forall|m: int| 0 <= m < o.len() ==> (#[trigger] o[m]).0 != k
}

proof fn lemma_lookup_first(o: Entries, k: Seq<char>, j: int, v: JsonV)
    requires
        first_entry(o, k, j, v),
    ensures
        lookup(o, k) == Some(v),
{
    lemma_find_key_first(o, k, j);
    let i = find_key(o, k)->0;
    if i < j {
        assert(o[i].0 != k);
    }
}

proof fn lemma_put_other(o: Entries, t: Seq<char>, w: JsonV, k: Seq<char>, j: int, v: JsonV)
    requires
        t != k,
        first_entry(o, k, j, v),
    ensures
        first_entry(put(o, t, w), k, j, v),
{
    let p = put(o, t, w);
    if find_key(o, t) is Some {
        lemma_find_key_some(o, t);
        let i = find_key(o, t)->0;
        assert(i != j);
        assert forall|m: int| 0 <= m < j implies (#[trigger] p[m]).0 != k by {
            assert(o[m].0 != k);
        }
    } else {
        assert forall|m: int| 0 <= m < j implies (#[trigger] p[m]).0 != k by {
            assert(p[m] == o[m]);
            assert(o[m].0 != k);
        }
    }
}

proof fn lemma_put_other_absent(o: Entries, t: Seq<char>, w: JsonV, k: Seq<char>)
    requires
        t != k,
        key_absent(o, k),
    ensures
        key_absent(put(o, t, w), k),
{
    let p = put(o, t, w);
    if find_key(o, t) is Some {
        lemma_find_key_some(o, t);
    }
    assert forall|m: int| 0 <= m < p.len() implies (#[trigger] p[m]).0 != k by {
        if m < o.len() {
            assert(o[m].0 != k);
        }
    }
}

proof fn lemma_remove_other(o: Entries, t: Seq<char>, k: Seq<char>, j: int, v: JsonV) -> (j2: int)
    requires
        t != k,
        first_entry(o, k, j, v),
    ensures
        first_entry(remove_key(o, t), k, j2, v),
{
    let q = remove_key(o, t);
    if find_key(o, t) is Some {
        lemma_find_key_some(o, t);
        let i = find_key(o, t)->0;
        assert(i != j);
        let j2 = if i < j { j - 1 } else { j };
        assert(q[j2] == o[j]);
        assert forall|m: int| 0 <= m < j2 implies (#[trigger] q[m]).0 != k by {
            if m < i {
                assert(q[m] == o[m]);
                assert(o[m].0 != k);
            } else {
                assert(q[m] == o[m + 1]);
                assert(o[m + 1].0 != k);
            }
        }
        j2
    } else {
        j
    }
}

proof fn lemma_remove_other_absent(o: Entries, t: Seq<char>, k: Seq<char>)
    requires
        key_absent(o, k),
    ensures
        key_absent(remove_key(o, t), k),
{
    let q = remove_key(o, t);
    if find_key(o, t) is Some {
        lemma_find_key_some(o, t);
        let i = find_key(o, t)->0;
        assert forall|m: int| 0 <= m < q.len() implies (#[trigger] q[m]).0 != k by {
            if m < i {
                assert(q[m] == o[m]);
            } else {
                assert(q[m] == o[m + 1]);
            }
        }
    }
}

/// No key visited by `rename_level` has `k` as its new name, and `k` has
/// none itself.
pub open spec fn no_rename_onto(keys: Seq<Seq<char>>, r: Map<Seq<char>, Seq<char>>, k: Seq<char>) -> bool {
    &&& !r.contains_key(k)
    &&& forall|i: int| 0 <= i < keys.len() && r.contains_key(#[trigger] keys[i]) ==> r[keys[i]] != k
}

proof fn lemma_rename_level_keeps(o: Entries, keys: Seq<Seq<char>>, r: Map<Seq<char>, Seq<char>>, k: Seq<char>, j: int, v: JsonV) -> (j2: int)
    requires
        no_rename_onto(keys, r, k),
        first_entry(o, k, j, v),
    ensures
        first_entry(rename_level(o, keys, r), k, j2, v),
    decreases keys.len(),
{
    if keys.len() == 0 {
        j
    } else {
        let init = keys.drop_last();
        assert forall|i: int| 0 <= i < init.len() && r.contains_key(#[trigger] init[i]) implies r[init[i]] != k by {
            assert(init[i] == keys[i]);
        }
        let j1 = lemma_rename_level_keeps(o, init, r, k, j, v);
        let prev = rename_level(o, init, r);
        let t = keys.last();
        if r.contains_key(t) {
            match lookup(prev, t) {
                Some(x) => {
                    assert(keys[keys.len() - 1] == t);
                    let j3 = lemma_remove_other(prev, t, k, j1, v);
                    lemma_put_other(remove_key(prev, t), r[t], x, k, j3, v);
                    j3
                },
                None => j1,
            }
        } else {
            j1
        }
    }
}

proof fn lemma_rename_level_absent(o: Entries, keys: Seq<Seq<char>>, r: Map<Seq<char>, Seq<char>>, k: Seq<char>)
    requires
        no_rename_onto(keys, r, k),
        key_absent(o, k),
    ensures
        key_absent(rename_level(o, keys, r), k),
    decreases keys.len(),
{
    if keys.len() > 0 {
        let init = keys.drop_last();
        assert forall|i: int| 0 <= i < init.len() && r.contains_key(#[trigger] init[i]) implies r[init[i]] != k by {
            assert(init[i] == keys[i]);
        }
        lemma_rename_level_absent(o, init, r, k);
        let prev = rename_level(o, init, r);
        let t = keys.last();
        if r.contains_key(t) {
            if let Some(x) = lookup(prev, t) {
                assert(keys[keys.len() - 1] == t);
                lemma_remove_other_absent(prev, t, k);
                lemma_put_other_absent(remove_key(prev, t), r[t], x, k);
            }
        }
    }
}

/// Keys without a new name are left alone: in an object whose keys are
/// renamed by `r`, a key that `r` neither renames nor renames another key
/// onto keeps its value (itself renamed at depth), or stays absent.
pub proof fn lemma_unmapped_key_kept(o: Entries, r: Map<Seq<char>, Seq<char>>, k: Seq<char>)
    requires
        no_rename_onto(keys_of(o), r, k),
    ensures
        renamed(JsonV::Object(o), r) matches JsonV::Object(o2) && lookup(o2, k) == match lookup(o, k) {
            Some(x) => Some(renamed(x, r)),
            None => None::<JsonV>,
        },
{
    if r.len() == 0 {
        match lookup(o, k) {
            Some(x) => assert(renamed(x, r) == x),
            None => {},
        }
    } else {
        let c = renamed_children(o, r);
        assert(c.len() == o.len());
        match lookup(o, k) {
            Some(x) => {
                lemma_find_key_some(o, k);
                let j = find_key(o, k)->0;
                assert(c[j] == (k, renamed(x, r)));
                assert forall|m: int| 0 <= m < j implies (#[trigger] c[m]).0 != k by {
                    assert(c[m].0 == o[m].0);
                    assert(o[m].0 != k);
                }
                let j2 = lemma_rename_level_keeps(c, keys_of(o), r, k, j, renamed(x, r));
                lemma_lookup_first(rename_level(c, keys_of(o), r), k, j2, renamed(x, r));
            },
            None => {
                assert(!(exists|i: int| 0 <= i < o.len() && o[i].0 == k));
                assert forall|m: int| 0 <= m < c.len() implies (#[trigger] c[m]).0 != k by {
                    assert(c[m].0 == o[m].0);
                }
                lemma_rename_level_absent(c, keys_of(o), r, k);
            },
        }
    }
}

/// Removes the entry for `k` (`Map::remove`), returning its value.
fn take_entry(o: &mut Vec<(String, Json)>, k: &str) -> (r: Option<Json>)
    ensures
        entries_view(final(o)@) == remove_key(entries_view(old(o)@), k@),
        match lookup(entries_view(old(o)@), k@) {
            Some(v) => r matches Some(x) && x@ == v,
            None => r is None,
        },
{
    let ghost ev = entries_view(o@);
    match find_entry(o, k) {
        Some(i) => {
            let (_, v) = o.remove(i);
            assert(entries_view(o@) =~= ev.remove(i as int));
            Some(v)
        },
        None => None,
    }
}

fn rename_level_exec(o: &mut Vec<(String, Json)>, keys: &Vec<String>, r: &StrMap)
    ensures
        entries_view(final(o)@) == rename_level(entries_view(old(o)@), keys@.map_values(|s: String| s@), r@),
{
    let ghost start = entries_view(o@);
    let ghost ks = keys@.map_values(|s: String| s@);
    let mut i: usize = 0;
    while i < keys.len()
        invariant
            i <= keys@.len(),
            ks == keys@.map_values(|s: String| s@),
            entries_view(o@) == rename_level(start, ks.subrange(0, i as int), r@),
        decreases keys@.len() - i,
    {
        proof {
            assert(ks.subrange(0, i + 1).drop_last() =~= ks.subrange(0, i as int));
            assert(ks.subrange(0, i + 1).last() == keys@[i as int]@);
        }
        match r.get(keys[i].as_str()) {
            Some(new_key) => {
                match take_entry(o, keys[i].as_str()) {
                    Some(v) => {
                        put_entry(o, new_key.clone(), v);
                    },
                    None => {},
                }
            },
            None => {},
        }
        i += 1;
    }
    proof {
        assert(ks.subrange(0, keys@.len() as int) =~= ks);
    }
}

#[verifier::rlimit(60)]
fn renamed_exec(v: &Json, r: &StrMap) -> (out: Json)
    ensures
        out@ == renamed(v@, r@),
    decreases v,
{
    if r.is_empty() {
        return v.deep_copy();
    }
    match v {
        Json::Object(o) => {
            let mut inner: Vec<(String, Json)> = Vec::new();
            let mut keys: Vec<String> = Vec::new();
            let mut i: usize = 0;
            while i < o.len()
                invariant
                    i <= o@.len(),
                    *v == Json::Object(*o),
                    r@.len() != 0,
                    inner@.len() == i,
                    keys@.len() == i,
                    forall|j: int| 0 <= j < i ==> (#[trigger] inner@[j]).0@ == o@[j].0@ && inner@[j].1@ == renamed(o@[j].1@, r@),
                    forall|j: int| 0 <= j < i ==> (#[trigger] keys@[j])@ == o@[j].0@,
                decreases o@.len() - i,
            {
                proof {
                    let ghost sv = *v;
                    assert(decreases_to!(sv => sv->Object_0));
                    assert(decreases_to!(sv->Object_0 => sv->Object_0@));
                    assert(decreases_to!(sv->Object_0@ => sv->Object_0@[i as int]));
                    assert(decreases_to!(sv->Object_0@[i as int] => sv->Object_0@[i as int].1));
                }
                let c = renamed_exec(&o[i].1, r);
                inner.push((o[i].0.clone(), c));
                keys.push(o[i].0.clone());
                i += 1;
            }
            let ghost ov = entries_view(o@);
            proof {
                lemma_object_view(*v);
                assert(keys@.map_values(|s: String| s@) =~= keys_of(ov));
                assert(entries_view(inner@) =~= renamed_children(ov, r@));
            }
            let ghost inner_v = entries_view(inner@);
            rename_level_exec(&mut inner, &keys, r);
            let out = Json::Object(inner);
            assert(out@ == renamed(v@, r@)) by {
                lemma_object_view(out);
                assert(v@ == JsonV::Object(ov));
                assert(entries_view(inner@) == rename_level(inner_v, keys_of(ov), r@));
                assert(r@.len() != 0);
            }
            out
        },
        Json::Array(a) => {
            let mut items: Vec<Json> = Vec::new();
            let mut i: usize = 0;
            while i < a.len()
                invariant
                    i <= a.len(),
                    *v == Json::Array(*a),
                    r@.len() != 0,
                    items@.len() == i,
                    forall|j: int| 0 <= j < i ==> (#[trigger] items@[j])@ == renamed(a@[j]@, r@),
                decreases a.len() - i,
            {
                proof {
                    let ghost sv = *v;
                    assert(decreases_to!(sv => sv->Array_0));
                    assert(decreases_to!(sv->Array_0 => sv->Array_0@));
                    assert(decreases_to!(sv->Array_0@ => sv->Array_0@[i as int]));
                }
                items.push(renamed_exec(&a[i], r));
                i += 1;
            }
            let out = Json::Array(items);
            proof {
                lemma_array_view(*v);
                assert(out@->Array_0 =~= renamed(v@, r@)->Array_0);
            }
            out
        },
        _ => v.deep_copy(),
    }
}

/// Rewrites object keys by `renames`, in place, at every depth. Keys that have
/// no new name are left alone.
pub fn rename_keys(value: &mut Json, renames: &StrMap)
    ensures
        final(value)@ == renamed(old(value)@, renames@),
{
    let r = renamed_exec(&*value, renames);
    *value = r;
}

/// What `emit_value` writes: renames first, then the `--fields` projection
/// (an empty field list projects nothing away).
pub open spec fn rendered(v: JsonV, opts_renames: Option<Map<Seq<char>, Seq<char>>>, fields: Option<Seq<Seq<char>>>) -> JsonV {
    let after = match opts_renames {
        Some(r) => renamed(v, r),
        None => v,
    };
    match fields {
        Some(fs) => if fs.len() > 0 { project_spec(after, fs) } else { after },
        None => after,
    }
}

impl OutputOptions {
    pub open spec fn renames_view(&self) -> Option<Map<Seq<char>, Seq<char>>> {
        match self.renames {
            Some(r) => Some(r@),
            None => None,
        }
    }

    pub open spec fn fields_view(&self) -> Option<Seq<Seq<char>>> {
        match self.fields {
            Some(f) => Some(f@.map_values(|s: String| s@)),
            None => None,
        }
    }
}

/// The value that `emit_value` serializes for `opts`.
pub fn render_value(value: Json, opts: &OutputOptions) -> (r: Json)
    ensures
        r@ == rendered(value@, opts.renames_view(), opts.fields_view()),
{
    let mut value = value;
    match &opts.renames {
        Some(r) => rename_keys(&mut value, r),
        None => {},
    }
    match &opts.fields {
        Some(fs) => {
            if fs.len() > 0 {
                project_fields(&value, fs)
            } else {
                value
            }
        },
        None => value,
    }
}

} // verus!
