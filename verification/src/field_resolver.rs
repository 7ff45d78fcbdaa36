//! Field name ↔ id resolution against the field list of `GET /rest/api/2/field`,
//! and the snake_case slugs used for automatic key renaming.

use vstd::prelude::*;
use crate::error::{join, pairs_map, Error, FieldError};
use crate::api::field::FieldMeta;
use crate::strmap::StrMap;
use crate::text::{
    ascii_lower, chars_of, is_alnum, is_ascii_alnum, push_char, starts_with, starts_with_spec,
    str_eq, to_ascii_lower,
};

verus! {

// ---------------------------------------------------------------------
// Slugs
// ---------------------------------------------------------------------

/// The maximal runs of ASCII alphanumeric characters of `s`, lowercased.
pub open spec fn alnum_runs(s: Seq<char>) -> Seq<Seq<char>>
    decreases s.len(),
{
    if s.len() == 0 {
        Seq::empty()
    } else {
        let r = alnum_runs(s.drop_last());
        let c = s.last();
        if !is_ascii_alnum(c) {
            r
        } else if s.len() >= 2 && is_ascii_alnum(s[s.len() - 2]) {
            r.update(r.len() - 1, r.last().push(to_ascii_lower(c)))
        } else {
            r.push(seq![to_ascii_lower(c)])
        }
    }
}

/// `slugify`: the ASCII alphanumeric runs of `name`, lowercased and joined by
/// `_` (everything else, non-ASCII included, separates runs).
pub open spec fn slug(name: Seq<char>) -> Seq<char> {
    join(alnum_runs(name), "_"@)
}

/// A nonempty word of ASCII alphanumerics.
pub open spec fn alnum_word(r: Seq<char>) -> bool {
    r.len() > 0 && forall|j: int| 0 <= j < r.len() ==> is_ascii_alnum(#[trigger] r[j])
}

proof fn lemma_lower_alnum(c: char)
    requires
        is_ascii_alnum(c),
    ensures
        is_ascii_alnum(to_ascii_lower(c)),
{
}

proof fn lemma_runs_shape(s: Seq<char>)
    ensures
        forall|i: int| 0 <= i < alnum_runs(s).len() ==> alnum_word(#[trigger] alnum_runs(s)[i]),
        s.len() > 0 && is_ascii_alnum(s.last()) ==> alnum_runs(s).len() > 0,
    decreases s.len(),
{
    if s.len() > 0 {
        let t = s.drop_last();
        lemma_runs_shape(t);
        let r = alnum_runs(t);
        let c = s.last();
        if is_ascii_alnum(c) {
            lemma_lower_alnum(c);
            let l = to_ascii_lower(c);
            if s.len() >= 2 && is_ascii_alnum(s[s.len() - 2]) {
                assert(t.last() == s[s.len() - 2]);
                let w = r.last().push(l);
                assert(alnum_word(r[r.len() - 1]));
                assert(alnum_word(w));
                let u = r.update(r.len() - 1, w);
                assert forall|i: int| 0 <= i < u.len() implies alnum_word(#[trigger] u[i]) by {
                    if i < r.len() - 1 {
                        assert(u[i] == r[i]);
                    }
                }
            } else {
                let u = r.push(seq![l]);
                assert(alnum_word(seq![l]));
                assert forall|i: int| 0 <= i < u.len() implies alnum_word(#[trigger] u[i]) by {
                    if i < r.len() {
                        assert(u[i] == r[i]);
                    }
                }
            }
        }
    }
}

proof fn lemma_join_push_sep(items: Seq<Seq<char>>, x: Seq<char>)
    requires
        items.len() > 0,
    ensures
        join(items.push(x), "_"@) == join(items, "_"@) + "_"@ + x,
{
    assert(items.push(x).drop_last() =~= items);
}

proof fn lemma_join_extend_last(items: Seq<Seq<char>>, c: char)
    requires
        items.len() > 0,
    ensures
        join(items.update(items.len() - 1, items.last().push(c)), "_"@) == join(items, "_"@).push(c),
{
    let u = items.update(items.len() - 1, items.last().push(c));
    if items.len() == 1 {
        assert(u[0] == items[0].push(c));
    } else {
        assert(u.drop_last() =~= items.drop_last());
        assert((join(items.drop_last(), "_"@) + "_"@ + items.last()).push(c) =~= join(items.drop_last(), "_"@) + "_"@ + items.last().push(c));
    }
}

/// Convert a field display name to a safe snake_case ASCII identifier.
/// Non-ASCII chars separate like punctuation; an empty result means skip.
pub fn slugify(name: &str) -> (r: String)
    ensures
        r@ == slug(name@),
{
    let v = chars_of(name);
    let mut out = String::new();
    let mut prev_sep = true;
    let mut i: usize = 0;
    proof {
        reveal_strlit("_");
        assert(v@.subrange(0, 0) =~= Seq::<char>::empty());
    }
    while i < v.len()
        invariant
            i <= v@.len(),
            v@ == name@,
            prev_sep == (i == 0 || !is_ascii_alnum(v@[i - 1])),
            ({
                let runs = alnum_runs(v@.subrange(0, i as int));
                if prev_sep && runs.len() > 0 {
                    out@ == join(runs, "_"@) + "_"@
                } else {
                    out@ == join(runs, "_"@)
                }
            }),
        decreases v@.len() - i,
    {
        let ghost pre = v@.subrange(0, i as int);
        let ghost nxt = v@.subrange(0, i + 1);
        proof {
            assert(nxt.drop_last() =~= pre);
            assert(nxt.last() == v@[i as int]);
            lemma_runs_shape(pre);
        }
        let c = v[i];
        if is_alnum(c) {
            let l = ascii_lower(c);
            proof {
                if i >= 1 {
                    assert(nxt[nxt.len() - 2] == v@[i - 1]);
                }
                let runs = alnum_runs(pre);
                if !prev_sep {
                    assert(i >= 1 && is_ascii_alnum(v@[i - 1]));
                    lemma_runs_shape(pre);
                    assert(pre.last() == v@[i - 1]);
                    lemma_join_extend_last(runs, l);
                } else if runs.len() > 0 {
                    lemma_join_push_sep(runs, seq![l]);
                    assert(out@ + seq![l] =~= (join(runs, "_"@) + "_"@).push(l));
                } else {
                    assert(runs.push(seq![l]) =~= seq![seq![l]]);
                }
            }
            push_char(&mut out, l);
            prev_sep = false;
        } else {
            let ghost o = out@;
            if !prev_sep && !out.as_str().is_empty() {
                push_char(&mut out, '_');
                proof {
                    reveal_strlit("_");
                    assert(out@ =~= o + "_"@);
                    lemma_runs_shape(pre);
                    assert(pre.last() == v@[i - 1]);
                }
            } else {
                proof {
                    if !prev_sep {
                        lemma_runs_shape(pre);
                        assert(pre.last() == v@[i - 1]);
                        assert(alnum_runs(pre).len() > 0);
                        assert(join(alnum_runs(pre), "_"@).len() > 0) by {
                            lemma_join_nonempty(alnum_runs(pre));
                        }
                        assert(out@.len() > 0);
                    }
                }
            }
            prev_sep = true;
        }
        i += 1;
    }
    proof {
        assert(v@.subrange(0, v@.len() as int) =~= v@);
    }
    let w = chars_of(out.as_str());
    if w.len() > 0 && w[w.len() - 1] == '_' {
        let t = crate::text::string_of_range(&w, 0, w.len() - 1);
        proof {
            let runs = alnum_runs(v@);
            if !(prev_sep && runs.len() > 0) {
                // out ends with a run's last character, not with `_`
                lemma_runs_shape(v@);
                if runs.len() > 0 {
                    lemma_join_last(runs);
                }
                assert(false);
            }
            assert(w@.subrange(0, w@.len() - 1) =~= join(runs, "_"@));
        }
        t
    } else {
        proof {
            let runs = alnum_runs(v@);
            if prev_sep && runs.len() > 0 {
                assert(w@.last() == '_');
                assert(false);
            }
        }
        out
    }
}

proof fn lemma_join_nonempty(items: Seq<Seq<char>>)
    requires
        items.len() > 0,
        forall|i: int| 0 <= i < items.len() ==> (#[trigger] items[i]).len() > 0,
    ensures
        join(items, "_"@).len() > 0,
        join(items, "_"@).last() == items.last().last(),
{
    if items.len() > 1 {
        assert(items.drop_last().len() > 0);
    }
}

proof fn lemma_join_last(items: Seq<Seq<char>>)
    requires
        items.len() > 0,
        forall|i: int| 0 <= i < items.len() ==> alnum_word(#[trigger] items[i]),
    ensures
        join(items, "_"@).len() > 0,
        join(items, "_"@).last() != '_',
{
    assert(alnum_word(items[items.len() - 1]));
    assert(forall|i: int| 0 <= i < items.len() ==> (#[trigger] items[i]).len() > 0);
    lemma_join_nonempty(items);
    let w = items.last();
    assert(is_ascii_alnum(w[w.len() - 1]));
}

/// A character a slug word may hold: an ASCII digit or lowercase letter.
pub open spec fn is_slug_char(c: char) -> bool {
    crate::text::is_ascii_digit(c) || crate::text::is_ascii_lower(c)
}

/// A snake_case identifier: ASCII digits, lowercase letters and `_` only,
/// with no `_` at either end and never two in a row.
pub open spec fn snake_case(s: Seq<char>) -> bool {
    &&& forall|i: int| 0 <= i < s.len() ==> is_slug_char(#[trigger] s[i]) || s[i] == '_'
    &&& s.len() > 0 ==> s[0] != '_' && s.last() != '_'
    &&& forall|i: int| 0 <= i < s.len() - 1 ==> !(#[trigger] s[i] == '_' && s[i + 1] == '_')
}

proof fn lemma_runs_lower(s: Seq<char>)
    ensures
        forall|i: int| 0 <= i < alnum_runs(s).len() ==> #[trigger] alnum_runs(s)[i].len() > 0
            && forall|j: int| 0 <= j < alnum_runs(s)[i].len() ==> is_slug_char(#[trigger] alnum_runs(s)[i][j]),
    decreases s.len(),
{
    if s.len() > 0 {
        let t = s.drop_last();
        lemma_runs_lower(t);
        let r = alnum_runs(t);
        let c = s.last();
        if is_ascii_alnum(c) {
            let l = to_ascii_lower(c);
            assert(is_slug_char(l));
            if s.len() >= 2 && is_ascii_alnum(s[s.len() - 2]) {
                assert(t.last() == s[s.len() - 2]);
                lemma_runs_shape(t);
                assert(alnum_word(r[r.len() - 1]));
                let w = r.last().push(l);
                let u = r.update(r.len() - 1, w);
                assert forall|i: int| 0 <= i < u.len() implies #[trigger] u[i].len() > 0
                    && forall|j: int| 0 <= j < u[i].len() ==> is_slug_char(#[trigger] u[i][j]) by {
                    if i < r.len() - 1 {
                        assert(u[i] == r[i]);
                    } else {
                        assert(u[i] == w);
                        assert forall|j: int| 0 <= j < w.len() implies is_slug_char(#[trigger] w[j]) by {
                            if j < w.len() - 1 {
                                assert(w[j] == r[r.len() - 1][j]);
                            }
                        }
                    }
                }
            } else {
                let u = r.push(seq![l]);
                assert forall|i: int| 0 <= i < u.len() implies #[trigger] u[i].len() > 0
                    && forall|j: int| 0 <= j < u[i].len() ==> is_slug_char(#[trigger] u[i][j]) by {
                    if i < r.len() {
                        assert(u[i] == r[i]);
                    }
                }
            }
        }
    }
}

proof fn lemma_join_snake(items: Seq<Seq<char>>)
    requires
        forall|i: int| 0 <= i < items.len() ==> #[trigger] items[i].len() > 0
            && forall|j: int| 0 <= j < items[i].len() ==> is_slug_char(#[trigger] items[i][j]),
    ensures
        snake_case(join(items, "_"@)),
        items.len() > 0 ==> join(items, "_"@).len() > 0,
    decreases items.len(),
{
    reveal_strlit("_");
    if items.len() == 1 {
        let w = items[0];
        assert(items[0].len() > 0);
        assert forall|i: int| 0 <= i < w.len() implies is_slug_char(#[trigger] w[i]) || w[i] == '_' by {
            assert(is_slug_char(items[0][i]));
        }
        assert(is_slug_char(w[0]));
        assert(is_slug_char(w[w.len() - 1]));
        assert forall|i: int| 0 <= i < w.len() - 1 implies !(#[trigger] w[i] == '_' && w[i + 1] == '_') by {
            assert(is_slug_char(items[0][i]));
        }
    } else if items.len() > 1 {
        let init = items.drop_last();
        assert forall|i: int| 0 <= i < init.len() implies #[trigger] init[i].len() > 0
            && forall|j: int| 0 <= j < init[i].len() ==> is_slug_char(#[trigger] init[i][j]) by {
            assert(init[i] == items[i]);
        }
        lemma_join_snake(init);
        let a = join(init, "_"@);
        let b = items.last();
        assert(items[items.len() - 1].len() > 0);
        let s = a + "_"@ + b;
        assert(join(items, "_"@) == s);
        let n = a.len();
        assert(forall|j: int| 0 <= j < b.len() ==> is_slug_char(#[trigger] b[j])) by {
            assert forall|j: int| 0 <= j < b.len() implies is_slug_char(#[trigger] b[j]) by {
                assert(is_slug_char(items[items.len() - 1][j]));
            }
        }
        assert forall|i: int| 0 <= i < s.len() implies is_slug_char(#[trigger] s[i]) || s[i] == '_' by {
            if i < n {
                assert(s[i] == a[i]);
            } else if i > n {
                assert(s[i] == b[i - n - 1]);
            }
        }
        assert(s[0] == a[0]);
        assert(s.last() == b[b.len() - 1]);
        assert(is_slug_char(b[b.len() - 1]));
        assert forall|i: int| 0 <= i < s.len() - 1 implies !(#[trigger] s[i] == '_' && s[i + 1] == '_') by {
            if i < n - 1 {
                assert(s[i] == a[i] && s[i + 1] == a[i + 1]);
            } else if i == n - 1 {
                assert(s[i] == a[n - 1]);
            } else if i == n {
                assert(s[i + 1] == b[0]);
                assert(is_slug_char(b[0]));
            } else {
                assert(s[i] == b[i - n - 1]);
                assert(is_slug_char(b[i - n - 1]));
            }
        }
    }
}

/// A nonempty word of ASCII digits and lowercase letters.
pub open spec fn slug_word(w: Seq<char>) -> bool {
    w.len() > 0 && forall|j: int| 0 <= j < w.len() ==> is_slug_char(#[trigger] w[j])
}

proof fn lemma_runs_word(w: Seq<char>)
    requires
        slug_word(w),
    ensures
        alnum_runs(w) == seq![w],
    decreases w.len(),
{
    let c = w.last();
    assert(is_slug_char(w[w.len() - 1]));
    assert(to_ascii_lower(c) == c);
    assert(is_ascii_alnum(c));
    if w.len() == 1 {
        assert(w.drop_last() =~= Seq::<char>::empty());
        assert(alnum_runs(w.drop_last()) =~= Seq::<Seq<char>>::empty());
        assert(seq![to_ascii_lower(c)] =~= w);
        assert(alnum_runs(w) == Seq::<Seq<char>>::empty().push(seq![to_ascii_lower(c)]));
        assert(Seq::<Seq<char>>::empty().push(w) =~= seq![w]);
    } else {
        let t = w.drop_last();
        assert forall|j: int| 0 <= j < t.len() implies is_slug_char(#[trigger] t[j]) by {
            assert(t[j] == w[j]);
        }
        lemma_runs_word(t);
        assert(is_slug_char(w[w.len() - 2]));
        assert(is_ascii_alnum(w[w.len() - 2]));
        assert(t.push(c) =~= w);
        let r = alnum_runs(t);
        assert(r == seq![t]);
        assert(alnum_runs(w) == r.update(r.len() - 1, r.last().push(to_ascii_lower(c))));
        assert(r.update(r.len() - 1, r.last().push(to_ascii_lower(c))) =~= seq![w]);
    }
}

proof fn lemma_runs_append_word(p: Seq<char>, w: Seq<char>)
    requires
        slug_word(w),
    ensures
        alnum_runs(p + "_"@ + w) == alnum_runs(p).push(w),
    decreases w.len(),
{
    reveal_strlit("_");
    let s = p + "_"@ + w;
    let c = w.last();
    assert(is_slug_char(w[w.len() - 1]));
    assert(to_ascii_lower(c) == c);
    assert(is_ascii_alnum(c));
    assert(s.last() == c);
    if w.len() == 1 {
        let q = p + "_"@;
        assert(s.drop_last() =~= q);
        assert(q.drop_last() =~= p);
        assert(q.last() == '_');
        assert(alnum_runs(q) == alnum_runs(p));
        assert(s[s.len() - 2] == '_');
        assert(seq![to_ascii_lower(c)] =~= w);
    } else {
        let t = w.drop_last();
        assert forall|j: int| 0 <= j < t.len() implies is_slug_char(#[trigger] t[j]) by {
            assert(t[j] == w[j]);
        }
        lemma_runs_append_word(p, t);
        assert(s.drop_last() =~= p + "_"@ + t);
        assert(s[s.len() - 2] == w[w.len() - 2]);
        assert(is_slug_char(w[w.len() - 2]));
        assert(is_ascii_alnum(w[w.len() - 2]));
        let r = alnum_runs(p).push(t);
        assert(r.update(r.len() - 1, r.last().push(c)) =~= alnum_runs(p).push(w)) by {
            assert(t.push(c) =~= w);
        }
    }
}

proof fn lemma_runs_join(items: Seq<Seq<char>>)
    requires
        forall|i: int| 0 <= i < items.len() ==> slug_word(#[trigger] items[i]),
    ensures
        alnum_runs(join(items, "_"@)) == items,
    decreases items.len(),
{
    if items.len() == 0 {
        assert(alnum_runs(Seq::<char>::empty()) =~= Seq::<Seq<char>>::empty());
    } else if items.len() == 1 {
        assert(slug_word(items[0]));
        lemma_runs_word(items[0]);
        assert(seq![items[0]] =~= items);
    } else {
        let init = items.drop_last();
        assert forall|i: int| 0 <= i < init.len() implies slug_word(#[trigger] init[i]) by {
            assert(init[i] == items[i]);
        }
        lemma_runs_join(init);
        assert(slug_word(items[items.len() - 1]));
        lemma_runs_append_word(join(init, "_"@), items.last());
        assert(init.push(items.last()) =~= items);
    }
}

/// Slugging a slug gives it back.
pub proof fn lemma_slug_idempotent(name: Seq<char>)
    ensures
        slug(slug(name)) == slug(name),
{
    let runs = alnum_runs(name);
    lemma_runs_lower(name);
    assert forall|i: int| 0 <= i < runs.len() implies slug_word(#[trigger] runs[i]) by {
        assert(runs[i].len() > 0);
    }
    lemma_runs_join(runs);
}

/// A slug is a snake_case identifier: only ASCII digits, lowercase letters
/// and single `_` separators, never at either end (possibly empty).
pub proof fn lemma_slug_is_snake_case(name: Seq<char>)
    ensures
        snake_case(slug(name)),
{
    lemma_runs_lower(name);
    lemma_join_snake(alnum_runs(name));
}

// ---------------------------------------------------------------------
// Field metadata and the resolver
// ---------------------------------------------------------------------

/// Ids of the fields named `name`, in list order (one per entry, so an id
/// listed twice counts twice).
pub open spec fn ids_named(list: Seq<FieldMeta>, name: Seq<char>) -> Seq<Seq<char>>
    decreases list.len(),
{
    if list.len() == 0 {
        Seq::empty()
    } else {
        let r = ids_named(list.drop_last(), name);
        if list.last().name@ == name {
            r.push(list.last().id@)
        } else {
            r
        }
    }
}

/// Whether some entry has the id `id`.
pub open spec fn has_id(list: Seq<FieldMeta>, id: Seq<char>) -> bool {
    exists|i: int| 0 <= i < list.len() && (#[trigger] list[i]).id@ == id
}

/// Index of the last entry with id `id` (a later entry replaces an earlier one).
pub open spec fn last_with_id(list: Seq<FieldMeta>, id: Seq<char>) -> Option<int>
    decreases list.len(),
{
    if list.len() == 0 {
        None
    } else if list.last().id@ == id {
        Some(list.len() - 1)
    } else {
        last_with_id(list.drop_last(), id)
    }
}

/// How a key resolves.
pub enum Resolution {
    /// The key is an id: this one.
    Id(Seq<char>),
    /// The field list is needed and has not been loaded.
    NeedsFieldList,
    /// No field has this name.
    Unknown,
    /// Several fields have this name; their ids.
    Ambiguous(Seq<Seq<char>>),
}

/// `resolve`: `customfield_*` keys pass through; then the alias table; then an
/// id of the field list; then the fields of that display name, which must be
/// exactly one.
pub open spec fn resolution(aliases: Map<Seq<char>, Seq<char>>, index: Option<Seq<FieldMeta>>, key: Seq<char>) -> Resolution {
    if starts_with_spec(key, "customfield_"@) {
        Resolution::Id(key)
    } else if aliases.contains_key(key) {
        Resolution::Id(aliases[key])
    } else {
        match index {
            None => Resolution::NeedsFieldList,
            Some(list) => if has_id(list, key) {
                Resolution::Id(key)
            } else {
                let ids = ids_named(list, key);
                if ids.len() == 0 {
                    Resolution::Unknown
                } else if ids.len() == 1 {
                    Resolution::Id(ids[0])
                } else {
                    Resolution::Ambiguous(ids)
                }
            },
        }
    }
}

/// The result that `resolve` returns for a resolution of `key`.
pub open spec fn resolved_as(r: Option<Result<String, Error>>, res: Resolution, key: Seq<char>) -> bool {
    match res {
        Resolution::NeedsFieldList => r is None,
        Resolution::Id(id) => r matches Some(Ok(x)) && x@ == id,
        Resolution::Unknown => r matches Some(Err(Error::FieldResolve(FieldError::Unknown(n)))) && n@ == key,
        Resolution::Ambiguous(ids) => r matches Some(Err(Error::FieldResolve(FieldError::Ambiguous { name, candidates })))
            && name@ == key && candidates@.map_values(|c: String| c@) == ids,
    }
}

/// Resolves user-supplied field keys (display names or ids) to field ids.
/// The field list is loaded at most once per resolver, on first need.
pub struct FieldResolver {
    aliases: StrMap,
    index: Option<Vec<FieldMeta>>,
}

impl FieldResolver {
    pub closed spec fn aliases_view(&self) -> Map<Seq<char>, Seq<char>> {
        self.aliases@
    }

    /// The loaded field list, if any.
    pub closed spec fn index_view(&self) -> Option<Seq<FieldMeta>> {
        match self.index {
            Some(v) => Some(v@),
            None => None,
        }
    }

    /// A resolver with no aliases and no field list yet.
    pub fn new() -> (r: FieldResolver)
        ensures
            r.aliases_view() == Map::<Seq<char>, Seq<char>>::empty(),
            r.index_view() is None,
    {
        FieldResolver { aliases: StrMap::new(), index: None }
    }

    /// Attach an alias map (display name → field id); aliases take
    /// precedence over the field list.
    pub fn with_aliases(self, aliases: StrMap) -> (r: FieldResolver)
        ensures
            r.aliases_view() == aliases@,
            r.index_view() == self.index_view(),
    {
        FieldResolver { aliases, index: self.index }
    }

    /// Whether the field list has been loaded.
    pub fn has_index(&self) -> (b: bool)
        ensures
            b == self.index_view() is Some,
    {
        self.index.is_some()
    }

    /// Whether resolving `key` needs the field list, which is not loaded yet.
    pub fn needs_index(&self, key: &str) -> (b: bool)
        ensures
            b == (resolution(self.aliases_view(), self.index_view(), key@) is NeedsFieldList),
    {
        !starts_with(key, "customfield_") && !self.aliases.contains_key(key) && self.index.is_none()
    }

    /// Record the field list; a list loaded earlier stays.
    pub fn load_index(&mut self, list: Vec<FieldMeta>)
        ensures
            final(self).aliases_view() == old(self).aliases_view(),
            final(self).index_view() == (match old(self).index_view() {
                Some(l) => Some(l),
                None => Some(list@),
            }),
    {
        if self.index.is_none() {
            self.index = Some(list);
        }
    }

    /// Given a user-supplied key (display name or raw id), the id; `None`
    /// when the field list is needed first (see `load_index`).
    pub fn resolve(&self, key: &str) -> (r: Option<Result<String, Error>>)
        ensures
            resolved_as(r, resolution(self.aliases_view(), self.index_view(), key@), key@),
    {
        if starts_with(key, "customfield_") {
            return Some(Ok(key.to_owned()));
        }
        if let Some(a) = self.aliases.get(key) {
            return Some(Ok(a.clone()));
        }
        match &self.index {
            None => None,
            Some(list) => {
                if position_of_id(list, key).is_some() {
                    return Some(Ok(key.to_owned()));
                }
                let ids = collect_ids_named(list, key);
                if ids.len() == 0 {
                    Some(Err(Error::FieldResolve(FieldError::Unknown(key.to_owned()))))
                } else if ids.len() == 1 {
                    Some(Ok(ids[0].clone()))
                } else {
                    Some(Err(Error::FieldResolve(FieldError::Ambiguous { name: key.to_owned(), candidates: ids })))
                }
            },
        }
    }

    /// The metadata of the field with id `id` (the last entry with that id);
    /// `None` when the field list is not loaded yet.
    pub fn metadata(&self, id: &str) -> (r: Option<Option<&FieldMeta>>)
        ensures
            match self.index_view() {
                None => r is None,
                Some(list) => match last_with_id(list, id@) {
                    None => r == Some(None::<&FieldMeta>),
                    Some(i) => r == Some(Some(&list[i])),
                },
            },
    {
        match &self.index {
            None => None,
            Some(list) => {
                proof {
                    lemma_last_with_id_bound(list@, id@);
                }
                let pos = last_position_of_id(list, id);
                match pos {
                    None => Some(None),
                    Some(i) => {
                        Some(Some(&list[i]))
                    },
                }
            },
        }
    }
}

fn position_of_id(list: &Vec<FieldMeta>, id: &str) -> (r: Option<usize>)
    ensures
        r is Some <==> has_id(list@, id@),
{
    let mut i: usize = 0;
    while i < list.len()
        invariant
            i <= list@.len(),
            forall|j: int| 0 <= j < i ==> (#[trigger] list@[j]).id@ != id@,
        decreases list@.len() - i,
    {
        if str_eq(list[i].id.as_str(), id) {
            return Some(i);
        }
        i += 1;
    }
    None
}

proof fn lemma_last_with_id_bound(list: Seq<FieldMeta>, id: Seq<char>)
    ensures
        match last_with_id(list, id) {
            None => !has_id(list, id),
            Some(i) => 0 <= i < list.len() && list[i].id@ == id,
        },
    decreases list.len(),
{
    if list.len() > 0 {
        lemma_last_with_id_bound(list.drop_last(), id);
        if list.last().id@ != id && last_with_id(list, id) is None {
            assert forall|i: int| 0 <= i < list.len() implies (#[trigger] list[i]).id@ != id by {
                if i < list.len() - 1 {
                    assert(list.drop_last()[i] == list[i]);
                }
            }
        }
    }
}

fn last_position_of_id(list: &Vec<FieldMeta>, id: &str) -> (r: Option<usize>)
    ensures
        match last_with_id(list@, id@) {
            None => r is None,
            Some(i) => r matches Some(k) && k == i && i < list@.len(),
        },
{
    proof {
        assert(list@.subrange(0, list@.len() as int) =~= list@);
        lemma_last_with_id_bound(list@, id@);
    }
    let mut i: usize = list.len();
    while i > 0
        invariant
            i <= list@.len(),
            last_with_id(list@, id@) == last_with_id(list@.subrange(0, i as int), id@),
        decreases i,
    {
        let ghost pre = list@.subrange(0, i as int);
        proof {
            assert(pre.drop_last() =~= list@.subrange(0, i - 1));
        }
        if str_eq(list[i - 1].id.as_str(), id) {
            return Some(i - 1);
        }
        i -= 1;
    }
    None
}

fn collect_ids_named(list: &Vec<FieldMeta>, name: &str) -> (r: Vec<String>)
    ensures
        r@.map_values(|c: String| c@) == ids_named(list@, name@),
{
    let mut r: Vec<String> = Vec::new();
    let mut i: usize = 0;
    while i < list.len()
        invariant
            i <= list@.len(),
            r@.map_values(|c: String| c@) == ids_named(list@.subrange(0, i as int), name@),
        decreases list@.len() - i,
    {
        let ghost pre = list@.subrange(0, i as int);
        proof {
            assert(list@.subrange(0, i + 1).drop_last() =~= pre);
        }
        if str_eq(list[i].name.as_str(), name) {
            r.push(list[i].id.clone());
            proof {
                assert(r@.map_values(|c: String| c@) =~= ids_named(pre, name@).push(list@[i as int].id@));
            }
        }
        i += 1;
    }
    proof {
        assert(list@.subrange(0, list@.len() as int) =~= list@);
    }
    r
}

// ---------------------------------------------------------------------
// Automatic renames of custom fields
// ---------------------------------------------------------------------

/// How many custom fields of `list` have the slug `s`.
pub open spec fn slug_count(list: Seq<FieldMeta>, s: Seq<char>) -> nat
    decreases list.len(),
{
    if list.len() == 0 {
        0
    } else {
        slug_count(list.drop_last(), s) + if list.last().custom && slug(list.last().name@) == s { 1nat } else { 0nat }
    }
}

/// Whether entry `x` of `full` gets an automatic rename: it is a custom field
/// whose slug is nonempty and shared with no other custom field.
pub open spec fn auto_renamed(x: FieldMeta, full: Seq<FieldMeta>) -> bool {
    x.custom && slug(x.name@).len() > 0 && slug_count(full, slug(x.name@)) == 1
}

/// The renames that the entries of `list` contribute, in order (a later entry
/// with the same id replaces an earlier one).
pub open spec fn renames_from(list: Seq<FieldMeta>, full: Seq<FieldMeta>) -> Map<Seq<char>, Seq<char>>
    decreases list.len(),
{
    if list.len() == 0 {
        Map::empty()
    } else {
        let m = renames_from(list.drop_last(), full);
        let x = list.last();
        if auto_renamed(x, full) {
            m.insert(x.id@, slug(x.name@))
        } else {
            m
        }
    }
}

/// `auto_rename_map`: `customfield_XXXX → slug(name)` for the custom fields
/// whose slug is nonempty and unique.
pub open spec fn auto_renames(list: Seq<FieldMeta>) -> Map<Seq<char>, Seq<char>> {
    renames_from(list, list)
}

fn count_slug(list: &Vec<FieldMeta>, slugs: &Vec<String>, s: &str) -> (n: usize)
    requires
        slugs@.len() == list@.len(),
        forall|j: int| 0 <= j < list@.len() ==> (#[trigger] slugs@[j])@ == slug(list@[j].name@),
    ensures
        n == slug_count(list@, s@),
{
    let mut n: usize = 0;
    let mut j: usize = 0;
    while j < list.len()
        invariant
            j <= list@.len(),
            slugs@.len() == list@.len(),
            forall|k: int| 0 <= k < list@.len() ==> (#[trigger] slugs@[k])@ == slug(list@[k].name@),
            n == slug_count(list@.subrange(0, j as int), s@),
            n <= j,
        decreases list@.len() - j,
    {
        proof {
            assert(list@.subrange(0, j + 1).drop_last() =~= list@.subrange(0, j as int));
            assert(slugs@[j as int]@ == slug(list@[j as int].name@));
        }
        if list[j].custom && str_eq(slugs[j].as_str(), s) {
            n += 1;
        }
        j += 1;
    }
    proof {
        assert(list@.subrange(0, list@.len() as int) =~= list@);
    }
    n
}

/// Build the automatic rename map `customfield_XXXX → slug(name)` from the
/// field list. Fields whose slug is empty or collides with another custom
/// field's slug are skipped; the caller merges user renames over it.
pub fn auto_rename_map(list: &Vec<FieldMeta>) -> (r: StrMap)
    ensures
        r@ == auto_renames(list@),
{
    let mut slugs: Vec<String> = Vec::new();
    let mut i: usize = 0;
    while i < list.len()
        invariant
            i <= list@.len(),
            slugs@.len() == i,
            forall|j: int| 0 <= j < i ==> (#[trigger] slugs@[j])@ == slug(list@[j].name@),
        decreases list@.len() - i,
    {
        slugs.push(slugify(list[i].name.as_str()));
        i += 1;
    }
    let mut out = StrMap::new();
    let mut i: usize = 0;
    while i < list.len()
        invariant
            i <= list@.len(),
            slugs@.len() == list@.len(),
            forall|j: int| 0 <= j < list@.len() ==> (#[trigger] slugs@[j])@ == slug(list@[j].name@),
            out@ == renames_from(list@.subrange(0, i as int), list@),
        decreases list@.len() - i,
    {
        proof {
            assert(list@.subrange(0, i + 1).drop_last() =~= list@.subrange(0, i as int));
            assert(slugs@[i as int]@ == slug(list@[i as int].name@));
        }
        if list[i].custom && !slugs[i].as_str().is_empty() {
            let n = count_slug(list, &slugs, slugs[i].as_str());
            if n == 1 {
                out.insert(list[i].id.clone(), slugs[i].clone());
            }
        }
        i += 1;
    }
    proof {
        assert(list@.subrange(0, list@.len() as int) =~= list@);
    }
    out
}

proof fn lemma_count_one(list: Seq<FieldMeta>, s: Seq<char>, i: int)
    requires
        0 <= i < list.len(),
        list[i].custom,
        slug(list[i].name@) == s,
    ensures
        slug_count(list, s) >= 1,
    decreases list.len(),
{
    if i < list.len() - 1 {
        lemma_count_one(list.drop_last(), s, i);
    }
}

proof fn lemma_count_two(list: Seq<FieldMeta>, s: Seq<char>, i: int, j: int)
    requires
        0 <= i < j < list.len(),
        list[i].custom,
        slug(list[i].name@) == s,
        list[j].custom,
        slug(list[j].name@) == s,
    ensures
        slug_count(list, s) >= 2,
    decreases list.len(),
{
    if j == list.len() - 1 {
        lemma_count_one(list.drop_last(), s, i);
    } else {
        lemma_count_two(list.drop_last(), s, i, j);
    }
}

proof fn lemma_renames_from_origin(list: Seq<FieldMeta>, full: Seq<FieldMeta>)
    ensures
        forall|k: Seq<char>| #[trigger] renames_from(list, full).contains_key(k) ==> exists|i: int|
            0 <= i < list.len() && (#[trigger] list[i]).id@ == k && auto_renamed(list[i], full)
                && renames_from(list, full)[k] == slug(list[i].name@),
    decreases list.len(),
{
    if list.len() > 0 {
        let t = list.drop_last();
        lemma_renames_from_origin(t, full);
        assert forall|k: Seq<char>| #[trigger] renames_from(list, full).contains_key(k) implies exists|i: int|
            0 <= i < list.len() && (#[trigger] list[i]).id@ == k && auto_renamed(list[i], full)
                && renames_from(list, full)[k] == slug(list[i].name@) by {
            let x = list.last();
            if auto_renamed(x, full) && k == x.id@ {
                assert(list[list.len() - 1] == x);
            } else {
                assert(renames_from(t, full).contains_key(k));
                let i = choose|i: int| 0 <= i < t.len() && (#[trigger] t[i]).id@ == k && auto_renamed(t[i], full)
                    && renames_from(t, full)[k] == slug(t[i].name@);
                assert(list[i] == t[i]);
            }
        }
    }
}

/// The automatic renames give each renamed field a nonempty slug of its own
/// display name, only to custom fields of the list, and never the same slug
/// to two fields.
pub proof fn lemma_auto_renames_unique(list: Seq<FieldMeta>)
    ensures
        forall|k: Seq<char>| #[trigger] auto_renames(list).contains_key(k) ==> auto_renames(list)[k].len() > 0
            && exists|i: int| 0 <= i < list.len() && (#[trigger] list[i]).id@ == k && list[i].custom
                && auto_renames(list)[k] == slug(list[i].name@),
        forall|k1: Seq<char>, k2: Seq<char>|
            #[trigger] auto_renames(list).contains_key(k1) && #[trigger] auto_renames(list).contains_key(k2) && k1 != k2
                ==> auto_renames(list)[k1] != auto_renames(list)[k2],
{
    lemma_renames_from_origin(list, list);
    assert forall|k1: Seq<char>, k2: Seq<char>|
        #[trigger] auto_renames(list).contains_key(k1) && #[trigger] auto_renames(list).contains_key(k2) && k1 != k2
            implies auto_renames(list)[k1] != auto_renames(list)[k2] by {
        let i1 = choose|i: int| 0 <= i < list.len() && (#[trigger] list[i]).id@ == k1 && auto_renamed(list[i], list)
            && renames_from(list, list)[k1] == slug(list[i].name@);
        let i2 = choose|i: int| 0 <= i < list.len() && (#[trigger] list[i]).id@ == k2 && auto_renamed(list[i], list)
            && renames_from(list, list)[k2] == slug(list[i].name@);
        if auto_renames(list)[k1] == auto_renames(list)[k2] {
            let s = auto_renames(list)[k1];
            if i1 < i2 {
                lemma_count_two(list, s, i1, i2);
            } else {
                assert(i1 != i2);
                lemma_count_two(list, s, i2, i1);
            }
        }
    }
}

proof fn lemma_renames_from_complete(list: Seq<FieldMeta>, full: Seq<FieldMeta>, i: int)
    requires
        0 <= i < list.len(),
        auto_renamed(list[i], full),
    ensures
        renames_from(list, full).contains_key(list[i].id@),
    decreases list.len(),
{
    if i < list.len() - 1 {
        let t = list.drop_last();
        assert(t[i] == list[i]);
        lemma_renames_from_complete(t, full, i);
    }
}

/// The automatic renames cover exactly the custom fields whose slug is
/// nonempty and carried by no other custom field: an id is renamed if and
/// only if such a field has it, and it is renamed to that field's slug.
pub proof fn lemma_auto_renames_exact(list: Seq<FieldMeta>, id: Seq<char>)
    ensures
        auto_renames(list).contains_key(id) <==> exists|i: int|
            0 <= i < list.len() && (#[trigger] list[i]).id@ == id && auto_renamed(list[i], list),
        auto_renames(list).contains_key(id) ==> exists|i: int|
            0 <= i < list.len() && (#[trigger] list[i]).id@ == id && auto_renamed(list[i], list)
                && auto_renames(list)[id] == slug(list[i].name@),
{
    lemma_renames_from_origin(list, list);
    if exists|i: int| 0 <= i < list.len() && (#[trigger] list[i]).id@ == id && auto_renamed(list[i], list) {
        let i = choose|i: int| 0 <= i < list.len() && (#[trigger] list[i]).id@ == id && auto_renamed(list[i], list);
        lemma_renames_from_complete(list, list, i);
    }
}

/// Once the field list is loaded, every key resolves: to an id or to an error.
pub proof fn lemma_loaded_resolves(aliases: Map<Seq<char>, Seq<char>>, list: Seq<FieldMeta>, key: Seq<char>)
    ensures
        !(resolution(aliases, Some(list), key) is NeedsFieldList),
{
}

/// `customfield_*` keys resolve to themselves, whatever the aliases and the
/// field list, and without the field list.
pub proof fn lemma_raw_ids_pass_through(aliases: Map<Seq<char>, Seq<char>>, index: Option<Seq<FieldMeta>>, key: Seq<char>)
    requires
        starts_with_spec(key, "customfield_"@),
    ensures
        resolution(aliases, index, key) == Resolution::Id(key),
{
}

/// An alias takes precedence over the field list.
pub proof fn lemma_alias_precedence(aliases: Map<Seq<char>, Seq<char>>, index: Option<Seq<FieldMeta>>, key: Seq<char>)
    requires
        !starts_with_spec(key, "customfield_"@),
        aliases.contains_key(key),
    ensures
        resolution(aliases, index, key) == Resolution::Id(aliases[key]),
{
}

/// Without an alias, an id of the field list resolves to itself, and a display
/// name that exactly one entry carries (and that is no entry's id) resolves to
/// that entry's id.
pub proof fn lemma_list_resolution(aliases: Map<Seq<char>, Seq<char>>, list: Seq<FieldMeta>, key: Seq<char>, i: int)
    requires
        !starts_with_spec(key, "customfield_"@),
        !aliases.contains_key(key),
        0 <= i < list.len(),
        list[i].id@ == key || (list[i].name@ == key && ids_named(list, key).len() == 1 && !has_id(list, key)),
    ensures
        resolution(aliases, Some(list), key) == Resolution::Id(list[i].id@),
{
    if list[i].id@ != key {
        lemma_ids_named_member(list, key, i);
    }
}

/// An entry named `name` contributes its id to `ids_named`, at its rank among
/// the entries of that name.
proof fn lemma_ids_named_member(list: Seq<FieldMeta>, name: Seq<char>, i: int)
    requires
        0 <= i < list.len(),
        list[i].name@ == name,
    ensures
        ids_named(list, name).contains(list[i].id@),
        ids_named(list, name).len() == 1 ==> ids_named(list, name)[0] == list[i].id@,
    decreases list.len(),
{
    let t = list.drop_last();
    if i < list.len() - 1 {
        lemma_ids_named_member(t, name, i);
        assert(t[i] == list[i]);
        if list.last().name@ == name {
            assert(ids_named(list, name) == ids_named(t, name).push(list.last().id@));
            let k = choose|k: int| 0 <= k < ids_named(t, name).len() && ids_named(t, name)[k] == list[i].id@;
            assert(ids_named(list, name)[k] == list[i].id@);
        }
    } else {
        assert(ids_named(list, name) == ids_named(t, name).push(list[i].id@));
        assert(ids_named(list, name)[ids_named(t, name).len() as int] == list[i].id@);
    }
}

/// The renames in effect: the automatic ones with the user's over them (the
/// user wins per key).
pub fn effective_renames(auto: &StrMap, user: &StrMap) -> (r: StrMap)
    ensures
        r@ == auto@.union_prefer_right(user@),
{
    let pairs = user.to_pairs();
    let mut map = auto.copy();
    let mut i: usize = 0;
    proof {
        assert(auto@.union_prefer_right(crate::strmap::entries_map(pairs@.subrange(0, 0))) =~= auto@);
    }
    while i < pairs.len()
        invariant
            i <= pairs@.len(),
            crate::strmap::entries_map(pairs@) == user@,
            map@ == auto@.union_prefer_right(crate::strmap::entries_map(pairs@.subrange(0, i as int))),
        decreases pairs@.len() - i,
    {
        map.insert(pairs[i].0.clone(), pairs[i].1.clone());
        proof {
            assert(pairs@.subrange(0, i + 1).drop_last() =~= pairs@.subrange(0, i as int));
            assert(pairs@.subrange(0, i + 1).last() == pairs@[i as int]);
            assert(map@ =~= auto@.union_prefer_right(crate::strmap::entries_map(pairs@.subrange(0, i + 1))));
        }
        i += 1;
    }
    proof {
        assert(pairs@.subrange(0, pairs@.len() as int) =~= pairs@);
    }
    map
}

/// A user rename always wins over the automatic one; every other automatic
/// rename stays.
pub proof fn lemma_user_renames_win(auto: Map<Seq<char>, Seq<char>>, user: Map<Seq<char>, Seq<char>>, key: Seq<char>)
    ensures
        user.contains_key(key) ==> auto.union_prefer_right(user)[key] == user[key],
        !user.contains_key(key) && auto.contains_key(key) ==> auto.union_prefer_right(user)[key] == auto[key],
{
}

} // verus!
