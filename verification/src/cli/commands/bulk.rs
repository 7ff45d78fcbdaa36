//! Client-side parallel bulk operations: which lines are work, how the work
//! is shared among workers, and what each outcome prints.

use vstd::prelude::*;
use vstd::multiset::Multiset;
use crate::error::Error;
use crate::json::{entries_view, member, parse_json_slice, json_document, Json, JsonV};
use crate::text::{trim, trim_spec};

verus! {

/// A line of the input is work unless it is blank.
pub fn keep_line(line: &str) -> (b: bool)
    ensures
        b == (trim_spec(line@).len() > 0),
{
    !trim(line).as_str().is_empty()
}

/// The number of workers: `--concurrency`, else the configured value,
/// clamped to 1..=16.
pub fn worker_count(concurrency: Option<usize>, configured: usize) -> (n: usize)
    ensures
        n == crate::config::clamp(match concurrency { Some(c) => c, None => configured }, 1, 16),
        1 <= n <= 16,
{
    let c = match concurrency {
        Some(c) => c,
        None => configured,
    };
    if c < 1 { 1 } else if c > 16 { 16 } else { c }
}

/// Dealing `items` round-robin to `w` piles: item `i` goes on pile `i % w`.
pub open spec fn deal<T>(items: Seq<T>, w: nat) -> Seq<Seq<T>>
    decreases items.len(),
{
    if items.len() == 0 {
        Seq::new(w, |j: int| Seq::<T>::empty())
    } else {
        let piles = deal(items.drop_last(), w);
        let j = (items.len() - 1) % (w as int);
        piles.update(j, piles[j].push(items.last()))
    }
}

/// The piles that are not empty, in order.
pub open spec fn nonempty<T>(piles: Seq<Seq<T>>) -> Seq<Seq<T>>
    decreases piles.len(),
{
    if piles.len() == 0 {
        Seq::empty()
    } else if piles.last().len() == 0 {
        nonempty(piles.drop_last())
    } else {
        nonempty(piles.drop_last()).push(piles.last())
    }
}

/// All the items of the piles, counted.
pub open spec fn pooled<T>(piles: Seq<Seq<T>>) -> Multiset<T>
    decreases piles.len(),
{
    if piles.len() == 0 {
        Multiset::empty()
    } else {
        pooled(piles.drop_last()).add(piles.last().to_multiset())
    }
}

proof fn lemma_deal_len<T>(items: Seq<T>, w: nat)
    requires
        w > 0,
    ensures
        deal(items, w).len() == w,
    decreases items.len(),
{
    if items.len() > 0 {
        lemma_deal_len(items.drop_last(), w);
    }
}

/// Split `items` into at most `workers` non-empty chunks, dealing them
/// round-robin (item `i` to chunk `i % workers`) and dropping empty chunks.
pub fn chunkify<T>(items: Vec<T>, workers: usize) -> (r: Vec<Vec<T>>)
    requires
        workers > 0,
    ensures
        r@.map_values(|c: Vec<T>| c@) == nonempty(deal(items@, workers as nat)),
{
    let ghost all = items@;
    // Reverse once so that popping hands the items out front to back.
    let mut items = items;
    let mut rev: Vec<T> = Vec::new();
    while items.len() > 0
        invariant
            items@.len() + rev@.len() == all.len(),
            forall|j: int| 0 <= j < items@.len() ==> #[trigger] items@[j] == all[j],
            forall|j: int| 0 <= j < rev@.len() ==> #[trigger] rev@[j] == all[all.len() - 1 - j],
        decreases items@.len(),
    {
        let x = items.pop().unwrap();
        rev.push(x);
    }
    let mut piles: Vec<Vec<T>> = Vec::new();
    let mut j: usize = 0;
    while j < workers
        invariant
            j <= workers,
            piles@.len() == j,
            forall|k: int| 0 <= k < j ==> (#[trigger] piles@[k])@.len() == 0,
        decreases workers - j,
    {
        piles.push(Vec::new());
        j += 1;
    }
    proof {
        assert(all.subrange(0, 0) =~= Seq::<T>::empty());
        assert forall|k: int| 0 <= k < piles@.len() implies (#[trigger] piles@[k])@ =~= Seq::<T>::empty() by {
            assert(piles@[k]@.len() == 0);
        }
        assert(piles@.map_values(|c: Vec<T>| c@) =~= deal(all.subrange(0, 0), workers as nat));
    }
    let n = rev.len();
    let mut i: usize = 0;
    while i < n
        invariant
            n == all.len(),
            i <= n,
            rev@.len() == n - i,
            forall|k: int| 0 <= k < rev@.len() ==> #[trigger] rev@[k] == all[all.len() - 1 - k],
            piles@.len() == workers,
            workers > 0,
            piles@.map_values(|c: Vec<T>| c@) == deal(all.subrange(0, i as int), workers as nat),
        decreases n - i,
    {
        let ghost pv = piles@.map_values(|c: Vec<T>| c@);
        let x = rev.pop().unwrap();
        let k = i % workers;
        let mut pile = piles.remove(k);
        pile.push(x);
        piles.insert(k, pile);
        proof {
            assert(x == all[i as int]);
            assert(all.subrange(0, i + 1).drop_last() =~= all.subrange(0, i as int));
            assert(all.subrange(0, i + 1).last() == all[i as int]);
            assert(piles@.map_values(|c: Vec<T>| c@) =~= pv.update(k as int, pv[k as int].push(x)));
        }
        i += 1;
    }
    proof {
        assert(all.subrange(0, n as int) =~= all);
    }
    // Keep the non-empty piles, in order.
    let ghost dealt = piles@.map_values(|c: Vec<T>| c@);
    let mut out: Vec<Vec<T>> = Vec::new();
    let mut rest: Vec<Vec<T>> = Vec::new();
    while piles.len() > 0
        invariant
            piles@.len() + rest@.len() == dealt.len(),
            forall|k: int| 0 <= k < piles@.len() ==> (#[trigger] piles@[k])@ == dealt[k],
            forall|k: int| 0 <= k < rest@.len() ==> (#[trigger] rest@[k])@ == dealt[dealt.len() - 1 - k],
        decreases piles@.len(),
    {
        let c = piles.pop().unwrap();
        rest.push(c);
    }
    proof {
        assert(out@.map_values(|c: Vec<T>| c@) =~= nonempty(dealt.subrange(0, 0)));
    }
    while rest.len() > 0
        invariant
            rest@.len() <= dealt.len(),
            forall|k: int| 0 <= k < rest@.len() ==> (#[trigger] rest@[k])@ == dealt[dealt.len() - 1 - k],
            out@.map_values(|c: Vec<T>| c@) == nonempty(dealt.subrange(0, dealt.len() - rest@.len())),
        decreases rest@.len(),
    {
        let ghost m = dealt.len() - rest@.len();
        let c = rest.pop().unwrap();
        proof {
            assert(c@ == dealt[m]);
            assert(dealt.subrange(0, m + 1).drop_last() =~= dealt.subrange(0, m));
            assert(dealt.subrange(0, m + 1).last() == dealt[m]);
        }
        if c.len() > 0 {
            let ghost before = out@;
            out.push(c);
            proof {
                assert(out@.map_values(|c: Vec<T>| c@) =~= before.map_values(|c: Vec<T>| c@).push(dealt[m]));
            }
        }
    }
    proof {
        assert(dealt.subrange(0, dealt.len() as int) =~= dealt);
    }
    out
}

proof fn lemma_pooled_update<T>(piles: Seq<Seq<T>>, j: int, x: T)
    requires
        0 <= j < piles.len(),
    ensures
        pooled(piles.update(j, piles[j].push(x))) =~= pooled(piles).insert(x),
    decreases piles.len(),
{
    let u = piles.update(j, piles[j].push(x));
    if j == piles.len() - 1 {
        assert(u.drop_last() =~= piles.drop_last());
        assert(piles[j].push(x).to_multiset() =~= piles[j].to_multiset().insert(x)) by {
            piles[j].to_multiset_ensures();
            piles[j].push(x).to_multiset_ensures();
        }
    } else {
        assert(u.drop_last() =~= piles.drop_last().update(j, piles[j].push(x)));
        lemma_pooled_update(piles.drop_last(), j, x);
    }
}

proof fn lemma_deal_pooled<T>(items: Seq<T>, w: nat)
    requires
        w > 0,
    ensures
        pooled(deal(items, w)) =~= items.to_multiset(),
    decreases items.len(),
{
    if items.len() == 0 {
        lemma_pooled_empty(Seq::new(w, |j: int| Seq::<T>::empty()));
        assert(items.to_multiset() =~= Multiset::empty()) by {
            items.to_multiset_ensures();
        }
    } else {
        let t = items.drop_last();
        lemma_deal_pooled(t, w);
        lemma_deal_len(t, w);
        let j = (items.len() - 1) % (w as int);
        lemma_pooled_update(deal(t, w), j, items.last());
        assert(items =~= t.push(items.last()));
        t.to_multiset_ensures();
    }
}

proof fn lemma_pooled_empty<T>(piles: Seq<Seq<T>>)
    requires
        forall|k: int| 0 <= k < piles.len() ==> (#[trigger] piles[k]).len() == 0,
    ensures
        pooled(piles) =~= Multiset::empty(),
    decreases piles.len(),
{
    if piles.len() > 0 {
        lemma_pooled_empty(piles.drop_last());
        assert(piles.last() =~= Seq::<T>::empty());
        assert(piles.last().to_multiset() =~= Multiset::empty()) by {
            piles.last().to_multiset_ensures();
        }
    }
}

proof fn lemma_nonempty_pooled<T>(piles: Seq<Seq<T>>)
    ensures
        pooled(nonempty(piles)) =~= pooled(piles),
        forall|k: int| 0 <= k < nonempty(piles).len() ==> (#[trigger] nonempty(piles)[k]).len() > 0,
        nonempty(piles).len() <= piles.len(),
    decreases piles.len(),
{
    if piles.len() > 0 {
        let t = piles.drop_last();
        lemma_nonempty_pooled(t);
        if piles.last().len() == 0 {
            assert(piles.last().to_multiset() =~= Multiset::empty()) by {
                piles.last().to_multiset_ensures();
            }
        } else {
            assert(nonempty(piles).drop_last() =~= nonempty(t));
        }
    }
}

/// The chunks hold every item exactly once, none of them is empty, and there
/// are at most as many as workers.
pub proof fn lemma_chunks_partition<T>(items: Seq<T>, workers: nat)
    requires
        workers > 0,
    ensures
        pooled(nonempty(deal(items, workers))) == items.to_multiset(),
        forall|k: int| 0 <= k < nonempty(deal(items, workers)).len() ==> (#[trigger] nonempty(deal(items, workers))[k]).len() > 0,
        nonempty(deal(items, workers)).len() <= workers,
{
    lemma_deal_pooled(items, workers);
    lemma_nonempty_pooled(deal(items, workers));
    lemma_deal_len(items, workers);
}

/// The items at the indices `i` with `i % w == j`, in order.
pub open spec fn stride<T>(items: Seq<T>, w: nat, j: int) -> Seq<T>
    decreases items.len(),
{
    if items.len() == 0 {
        Seq::empty()
    } else if (items.len() - 1) % (w as int) == j {
        stride(items.drop_last(), w, j).push(items.last())
    } else {
        stride(items.drop_last(), w, j)
    }
}

proof fn lemma_deal_stride<T>(items: Seq<T>, w: nat, j: int)
    requires
        w > 0,
        0 <= j < w,
    ensures
        deal(items, w)[j] == stride(items, w, j),
        stride(items, w, j).len() > 0 <==> j < items.len(),
    decreases items.len(),
{
    if items.len() > 0 {
        let t = items.drop_last();
        lemma_deal_stride(t, w, j);
        lemma_deal_len(t, w);
        let l = items.len() - 1;
        if l < w {
            vstd::arithmetic::div_mod::lemma_small_mod(l as nat, w);
        }
    }
}

proof fn lemma_nonempty_prefix<T>(piles: Seq<Seq<T>>, n: int)
    requires
        0 <= n <= piles.len(),
        forall|j: int| 0 <= j < n ==> (#[trigger] piles[j]).len() > 0,
        forall|j: int| n <= j < piles.len() ==> (#[trigger] piles[j]).len() == 0,
    ensures
        nonempty(piles) == piles.subrange(0, n),
    decreases piles.len(),
{
    if piles.len() > 0 {
        let t = piles.drop_last();
        if n == piles.len() {
            assert(piles[piles.len() - 1].len() > 0);
            lemma_nonempty_prefix(t, n - 1);
            assert(t.subrange(0, n - 1).push(piles.last()) =~= piles.subrange(0, n));
        } else {
            assert(piles[piles.len() - 1].len() == 0);
            assert forall|j: int| n <= j < t.len() implies (#[trigger] t[j]).len() == 0 by {
                assert(t[j] == piles[j]);
            }
            assert forall|j: int| 0 <= j < n implies (#[trigger] t[j]).len() > 0 by {
                assert(t[j] == piles[j]);
            }
            lemma_nonempty_prefix(t, n);
            assert(t.subrange(0, n) =~= piles.subrange(0, n));
        }
    } else {
        assert(piles.subrange(0, n) =~= Seq::<Seq<T>>::empty());
    }
}

/// Round-robin dealing: there are `min(workers, items)` chunks, and chunk
/// `j` holds exactly the items at the indices `i` with `i % workers == j`,
/// in their order.
pub proof fn lemma_chunks_round_robin<T>(items: Seq<T>, workers: nat)
    requires
        workers > 0,
    ensures
        nonempty(deal(items, workers)).len() == if workers < items.len() { workers as int } else { items.len() as int },
        forall|j: int| 0 <= j < nonempty(deal(items, workers)).len()
            ==> #[trigger] nonempty(deal(items, workers))[j] == stride(items, workers, j),
{
    let piles = deal(items, workers);
    lemma_deal_len(items, workers);
    let n: int = if workers < items.len() { workers as int } else { items.len() as int };
    assert forall|j: int| 0 <= j < piles.len() implies #[trigger] piles[j] == stride(items, workers, j)
        && (piles[j].len() > 0 <==> j < items.len()) by {
        lemma_deal_stride(items, workers, j);
    }
    assert forall|j: int| 0 <= j < n implies (#[trigger] piles[j]).len() > 0 by {
        lemma_deal_stride(items, workers, j);
    }
    assert forall|j: int| n <= j < piles.len() implies (#[trigger] piles[j]).len() == 0 by {
        lemma_deal_stride(items, workers, j);
    }
    lemma_nonempty_prefix(piles, n);
}

// ---------------------------------------------------------------------
// Lines and outcomes
// ---------------------------------------------------------------------

/// The `key` of a JSONL line, when the line is JSON with a string `key`.
pub open spec fn line_key(line: Seq<u8>) -> Option<Seq<char>> {
    match json_document(line) {
        Some(v) => match member(v, "key"@) {
            Some(JsonV::Str(k)) => Some(k),
            _ => None,
        },
        None => None,
    }
}

pub fn extract_key(line: &[u8]) -> (r: Option<String>)
    ensures
        match line_key(line@) {
            Some(k) => r matches Some(x) && x@ == k,
            None => r is None,
        },
{
    match parse_json_slice(line) {
        Some(v) => match v.get("key") {
            Some(k) => match k.as_str() {
                Some(s) => Some(s.clone()),
                None => None,
            },
            None => None,
        },
        None => None,
    }
}

/// `{"ok": true, "key": key, "data": data}`: one line done.
pub fn done_line(key: &str, data: Json) -> (r: Json)
    ensures
        r@ == JsonV::Object(seq![("ok"@, JsonV::Bool(true)), ("key"@, JsonV::Str(key@)), ("data"@, data@)]),
{
    let mut e: Vec<(String, Json)> = Vec::new();
    e.push(("ok".to_owned(), Json::Bool(true)));
    e.push(("key".to_owned(), Json::string(key)));
    e.push(("data".to_owned(), data));
    proof {
        assert(entries_view(e@) =~= seq![("ok"@, JsonV::Bool(true)), ("key"@, JsonV::Str(key@)), ("data"@, data@)]);
    }
    Json::object(e)
}

/// `{"ok": false, "error": ...}`: one line failed, with the error as the
/// stderr JSON describes it.
pub fn failed_line(e: &Error) -> (r: Json)
    ensures
        r@ == JsonV::Object(seq![("ok"@, JsonV::Bool(false)), ("error"@, crate::error::stderr_error_spec(*e))]),
{
    let mut m: Vec<(String, Json)> = Vec::new();
    m.push(("ok".to_owned(), Json::Bool(false)));
    m.push(("error".to_owned(), e.error_json()));
    proof {
        assert(entries_view(m@) =~= seq![("ok"@, JsonV::Bool(false)), ("error"@, crate::error::stderr_error_spec(*e))]);
    }
    Json::object(m)
}

/// `{"summary": {"ok": n, "failed": m}}`.
pub fn bulk_summary(ok: u64, failed: u64) -> (r: Json)
    ensures
        r@ == JsonV::Object(seq![("summary"@, JsonV::Object(seq![
            ("ok"@, JsonV::Number(crate::text::decimal(ok as nat))),
            ("failed"@, JsonV::Number(crate::text::decimal(failed as nat))),
        ]))]),
{
    let mut e: Vec<(String, Json)> = Vec::new();
    e.push(("ok".to_owned(), Json::uint(ok)));
    e.push(("failed".to_owned(), Json::uint(failed)));
    proof {
        assert(entries_view(e@) =~= seq![
            ("ok"@, JsonV::Number(crate::text::decimal(ok as nat))),
            ("failed"@, JsonV::Number(crate::text::decimal(failed as nat))),
        ]);
    }
    Json::object1("summary", Json::object(e))
}

} // verus!
