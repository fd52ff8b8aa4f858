//! The text that a client's event stream carries: `id:value` pairs joined by
//! `|`, taken from the store, optionally leaving out one client's own id.

use vstd::prelude::*;
use crate::model::{has_key, keys_unique, map_of, Entry};
use crate::store::ScheduleStore;

verus! {

/// One pair as text: the id, a colon, the value.
pub open spec fn pair_text(e: Entry) -> Seq<char> {
    e.0 + seq![':'] + e.1
}

/// The pairs as text, joined by `|`; empty for no pairs.
pub open spec fn render(es: Seq<Entry>) -> Seq<char>
    decreases es.len(),
{
    if es.len() == 0 {
        Seq::empty()
    } else if es.len() == 1 {
        pair_text(es[0])
    } else {
        render(es.drop_last()) + seq!['|'] + pair_text(es.last())
    }
}

/// The pairs of `es`, in order, but those whose id is `exclude`.
pub open spec fn shown(es: Seq<Entry>, exclude: Option<Seq<char>>) -> Seq<Entry>
    decreases es.len(),
{
    if es.len() == 0 {
        es
    } else {
        let rest = shown(es.drop_last(), exclude);
        if exclude == Some(es.last().0) {
            rest
        } else {
            rest.push(es.last())
        }
    }
}

/// The view of an optional borrowed id.
pub open spec fn id_view(o: Option<&String>) -> Option<Seq<char>> {
    match o {
        Some(s) => Some(s@),
        None => None,
    }
}

/// Renders the store's pairs, leaving out the id `exclude` if one is given.
pub fn render_store(store: &ScheduleStore, exclude: Option<&String>) -> (r: String)
    ensures
        r@ == render(shown(store.entries(), id_view(exclude))),
{
    let ghost es = store.entries();
    let ghost ex = id_view(exclude);
    let n = store.len();
    let mut out = String::new();
    let mut empty = true;
    let mut i: usize = 0;
    assert(es.take(0) =~= Seq::<Entry>::empty());
    while i < n
        invariant
            n == es.len(),
            es == store.entries(),
            ex == id_view(exclude),
            i <= n,
            out@ == render(shown(es.take(i as int), ex)),
            empty == (shown(es.take(i as int), ex).len() == 0),
        decreases n - i,
    {
        let e = store.entry_at(i);
        let skip = match exclude {
            Some(x) => e.0 == *x,
            None => false,
        };
        let ghost prev = shown(es.take(i as int), ex);
        assert(es.take(i + 1).drop_last() =~= es.take(i as int));
        proof {
            reveal_strlit("|");
            reveal_strlit(":");
        }
        if !skip {
            if !empty {
                out.append("|");
            }
            out.append(e.0.as_str());
            out.append(":");
            out.append(e.1.as_str());
            empty = false;
            let ghost next = prev.push(es[i as int]);
            assert(next.drop_last() =~= prev);
            assert(out@ =~= render(next));
        }
        i = i + 1;
    }
    assert(es.take(n as int) =~= es);
    out
}

/// Every pair shown has an id of `es` other than `exclude`.
pub proof fn lemma_shown_keys(es: Seq<Entry>, exclude: Option<Seq<char>>, k: Seq<char>)
    ensures
        has_key(shown(es, exclude), k) ==> has_key(es, k) && exclude != Some(k),
    decreases es.len(),
{
    if es.len() > 0 {
        let init = es.drop_last();
        let rest = shown(init, exclude);
        lemma_shown_keys(init, exclude, k);
        if has_key(shown(es, exclude), k) {
            let s = shown(es, exclude);
            let j = choose|j: int| 0 <= j < s.len() && s[j].0 == k;
            if j < rest.len() {
                assert(rest[j].0 == k);
                let m = choose|m: int| 0 <= m < init.len() && init[m].0 == k;
                assert(es[m].0 == k);
            } else {
                assert(es[es.len() - 1].0 == k);
            }
        }
    }
}

/// Leaving out an id keeps the ids distinct, and the pairs shown stand for
/// the map of all pairs with that id removed.
pub proof fn lemma_shown_map(es: Seq<Entry>, exclude: Option<Seq<char>>)
    requires
        keys_unique(es),
    ensures
        keys_unique(shown(es, exclude)),
        map_of(shown(es, exclude)) == match exclude {
            Some(id) => map_of(es).remove(id),
            None => map_of(es),
        },
    decreases es.len(),
{
    if es.len() > 0 {
        let init = es.drop_last();
        let last = es.last();
        let rest = shown(init, exclude);
        assert(keys_unique(init));
        lemma_shown_map(init, exclude);
        assert(es.drop_last() == init);
        if exclude != Some(last.0) {
            assert(rest.push(last).drop_last() =~= rest);
            assert forall|i: int, j: int|
                0 <= i < j < rest.push(last).len() implies rest.push(last)[i].0 != rest.push(
                last,
            )[j].0 by {
                if j == rest.len() {
                    let k = rest[i].0;
                    assert(has_key(rest, k));
                    lemma_shown_keys(init, exclude, k);
                    let m = choose|m: int| 0 <= m < init.len() && init[m].0 == k;
                    assert(es[m].0 == k);
                    assert(es[es.len() - 1].0 == last.0);
                }
            }
        }
        match exclude {
            Some(id) => {
                if id == last.0 {
                    assert(map_of(es).remove(id) =~= map_of(init).remove(id));
                } else {
                    assert(map_of(es).remove(id) =~= map_of(init).remove(id).insert(
                        last.0,
                        last.1,
                    ));
                }
            },
            None => {},
        }
    }
}

} // verus!
