//! Mathematical model of the schedule table: ordered pairs of client id and
//! value, the map they stand for, and the effect of a sequence of writes.

use vstd::prelude::*;

verus! {

/// A client id and its schedule value, as character sequences.
pub type Entry = (Seq<char>, Seq<char>);

/// No two pairs share a client id.
pub open spec fn keys_unique(es: Seq<Entry>) -> bool {
    forall|i: int, j: int| 0 <= i < j < es.len() ==> es[i].0 != es[j].0
}

/// Some pair in `es` has the id `k`.
pub open spec fn has_key(es: Seq<Entry>, k: Seq<char>) -> bool {
    exists|i: int| 0 <= i < es.len() && es[i].0 == k
}

/// The map after the writes of `ops`, in order, each overwriting its id.
pub open spec fn apply_sets(m: Map<Seq<char>, Seq<char>>, ops: Seq<Entry>) -> Map<
    Seq<char>,
    Seq<char>,
>
    decreases ops.len(),
{
    if ops.len() == 0 {
        m
    } else {
        apply_sets(m, ops.drop_last()).insert(ops.last().0, ops.last().1)
    }
}

/// The map that a list of pairs stands for.
pub open spec fn map_of(es: Seq<Entry>) -> Map<Seq<char>, Seq<char>> {
    apply_sets(Map::empty(), es)
}

/// An id is in the result of the writes exactly when it was there before or
/// one of the writes names it.
pub proof fn lemma_apply_sets_domain(m: Map<Seq<char>, Seq<char>>, ops: Seq<Entry>, k: Seq<char>)
    ensures
        apply_sets(m, ops).contains_key(k) <==> (m.contains_key(k) || has_key(ops, k)),
    decreases ops.len(),
{
    if ops.len() > 0 {
        let init = ops.drop_last();
        lemma_apply_sets_domain(m, init, k);
        if has_key(init, k) {
            let i = choose|i: int| 0 <= i < init.len() && init[i].0 == k;
            assert(ops[i].0 == k);
        }
        if has_key(ops, k) && ops.last().0 != k {
            let i = choose|i: int| 0 <= i < ops.len() && ops[i].0 == k;
            assert(init[i].0 == k);
        }
    }
}

/// The value an id ends with is the one of the last write that names it.
pub proof fn lemma_apply_sets_last(m: Map<Seq<char>, Seq<char>>, ops: Seq<Entry>, i: int)
    requires
        0 <= i < ops.len(),
        forall|j: int| i < j < ops.len() ==> ops[j].0 != ops[i].0,
    ensures
        apply_sets(m, ops).contains_key(ops[i].0),
        apply_sets(m, ops)[ops[i].0] == ops[i].1,
    decreases ops.len(),
{
    if i < ops.len() - 1 {
        let init = ops.drop_last();
        lemma_apply_sets_last(m, init, i);
    }
}

/// Writes that do not name an id leave it as it was.
pub proof fn lemma_apply_sets_untouched(
    m: Map<Seq<char>, Seq<char>>,
    ops: Seq<Entry>,
    k: Seq<char>,
)
    requires
        !has_key(ops, k),
    ensures
        apply_sets(m, ops).contains_key(k) == m.contains_key(k),
        m.contains_key(k) ==> apply_sets(m, ops)[k] == m[k],
    decreases ops.len(),
{
    if ops.len() > 0 {
        let init = ops.drop_last();
        if has_key(init, k) {
            let i = choose|i: int| 0 <= i < init.len() && init[i].0 == k;
            assert(ops[i].0 == k);
        }
        lemma_apply_sets_untouched(m, init, k);
    }
}

/// With distinct ids, each pair's value is what the map holds for its id.
pub proof fn lemma_map_of_index(es: Seq<Entry>, i: int)
    requires
        keys_unique(es),
        0 <= i < es.len(),
    ensures
        map_of(es).contains_key(es[i].0),
        map_of(es)[es[i].0] == es[i].1,
{
    lemma_apply_sets_last(Map::empty(), es, i);
}

/// The ids of the map are the ids of the pairs.
pub proof fn lemma_map_of_domain(es: Seq<Entry>, k: Seq<char>)
    ensures
        map_of(es).contains_key(k) <==> has_key(es, k),
{
    lemma_apply_sets_domain(Map::empty(), es, k);
}

/// Replacing the value of the pair at `i` writes that value into the map.
pub proof fn lemma_map_of_update(es: Seq<Entry>, i: int, v: Seq<char>)
    requires
        keys_unique(es),
        0 <= i < es.len(),
    ensures
        keys_unique(es.update(i, (es[i].0, v))),
        map_of(es.update(i, (es[i].0, v))) == map_of(es).insert(es[i].0, v),
{
    let k = es[i].0;
    let es2 = es.update(i, (k, v));
    assert(keys_unique(es2));
    let lhs = map_of(es2);
    let rhs = map_of(es).insert(k, v);
    assert forall|x: Seq<char>| #[trigger] lhs.contains_key(x) == rhs.contains_key(x) by {
        lemma_map_of_domain(es, x);
        lemma_map_of_domain(es2, x);
        if has_key(es, x) {
            let j = choose|j: int| 0 <= j < es.len() && es[j].0 == x;
            assert(es2[j].0 == x);
        }
        if has_key(es2, x) {
            let j = choose|j: int| 0 <= j < es2.len() && es2[j].0 == x;
            assert(es[j].0 == x);
        }
    }
    assert forall|x: Seq<char>| #[trigger] lhs.contains_key(x) implies lhs[x] == rhs[x] by {
        lemma_map_of_domain(es2, x);
        let j = choose|j: int| 0 <= j < es2.len() && es2[j].0 == x;
        lemma_map_of_index(es2, j);
        if j != i {
            lemma_map_of_index(es, j);
        }
    }
    assert(lhs =~= rhs);
}

/// Appending a pair with a new id inserts it into the map.
pub proof fn lemma_map_of_push(es: Seq<Entry>, e: Entry)
    requires
        keys_unique(es),
        !has_key(es, e.0),
    ensures
        keys_unique(es.push(e)),
        map_of(es.push(e)) == map_of(es).insert(e.0, e.1),
{
    assert(es.push(e).drop_last() =~= es);
    assert forall|i: int, j: int| 0 <= i < j < es.push(e).len() implies es.push(e)[i].0 != es.push(
        e,
    )[j].0 by {
        if j == es.len() {
            assert(es[i].0 == es.push(e)[i].0);
        }
    }
}

/// `ops[i]` is the last write in `ops` that names its id.
pub open spec fn is_last_write(ops: Seq<Entry>, i: int) -> bool {
    0 <= i < ops.len() && forall|j: int| i < j < ops.len() ==> ops[j].0 != ops[i].0
}

/// Last write wins: after any sequence of writes, an id is present exactly
/// when it was present before or some write named it, and it holds the value
/// of the last write that named it. From an empty map, the ids present are
/// exactly the ids ever written.
pub proof fn lemma_last_write_wins(m: Map<Seq<char>, Seq<char>>, ops: Seq<Entry>)
    ensures
        forall|k: Seq<char>|
            #[trigger] apply_sets(m, ops).contains_key(k) <==> (m.contains_key(k) || has_key(
                ops,
                k,
            )),
        forall|i: int|
            #[trigger] is_last_write(ops, i) ==> apply_sets(m, ops)[ops[i].0] == ops[i].1,
        forall|k: Seq<char>|
            !has_key(ops, k) && m.contains_key(k) ==> #[trigger] apply_sets(m, ops)[k] == m[k],
{
    assert forall|k: Seq<char>|
        #[trigger] apply_sets(m, ops).contains_key(k) <==> (m.contains_key(k) || has_key(
            ops,
            k,
        )) by {
        lemma_apply_sets_domain(m, ops, k);
    }
    assert forall|i: int| #[trigger] is_last_write(ops, i) implies apply_sets(m, ops)[ops[i].0]
        == ops[i].1 by {
        lemma_apply_sets_last(m, ops, i);
    }
    assert forall|k: Seq<char>| !has_key(ops, k) && m.contains_key(k) implies #[trigger] apply_sets(
        m,
        ops,
    )[k] == m[k] by {
        lemma_apply_sets_untouched(m, ops, k);
    }
}

/// No id is written by both `b1` and `b2`.
pub open spec fn disjoint_ids(b1: Seq<Entry>, b2: Seq<Entry>) -> bool {
    forall|i: int, j: int| 0 <= i < b1.len() && 0 <= j < b2.len() ==> b1[i].0 != b2[j].0
}

/// Two batches of writes to different ids lose nothing to each other: in
/// either order the result is the same map, and it holds the last value each
/// batch wrote for each of its ids.
pub proof fn lemma_disjoint_batches_commute(
    m: Map<Seq<char>, Seq<char>>,
    b1: Seq<Entry>,
    b2: Seq<Entry>,
)
    requires
        disjoint_ids(b1, b2),
    ensures
        apply_sets(apply_sets(m, b1), b2) == apply_sets(apply_sets(m, b2), b1),
        forall|i: int|
            #[trigger] is_last_write(b1, i) ==> apply_sets(apply_sets(m, b1), b2)[b1[i].0]
                == b1[i].1,
        forall|i: int|
            #[trigger] is_last_write(b2, i) ==> apply_sets(apply_sets(m, b1), b2)[b2[i].0]
                == b2[i].1,
{
    let m1 = apply_sets(m, b1);
    let m2 = apply_sets(m, b2);
    let l = apply_sets(m1, b2);
    let r = apply_sets(m2, b1);
    lemma_last_write_wins(m, b1);
    lemma_last_write_wins(m, b2);
    lemma_last_write_wins(m1, b2);
    lemma_last_write_wins(m2, b1);
    assert forall|k: Seq<char>| #[trigger] l.contains_key(k) implies l[k] == r[k] by {
        if has_key(b2, k) {
            assert(!has_key(b1, k));
            let last = lemma_last_write_exists(b2, k);
            assert(is_last_write(b2, last));
        } else if has_key(b1, k) {
            let last = lemma_last_write_exists(b1, k);
            assert(is_last_write(b1, last));
            assert(!has_key(b2, k));
        }
    }
    assert forall|i: int| #[trigger] is_last_write(b1, i) implies l[b1[i].0] == b1[i].1 by {
        assert(!has_key(b2, b1[i].0));
    }
    assert(l =~= r);
}

/// An id that some write names has a last write naming it.
pub proof fn lemma_last_write_exists(ops: Seq<Entry>, k: Seq<char>) -> (i: int)
    requires
        has_key(ops, k),
    ensures
        is_last_write(ops, i),
        ops[i].0 == k,
    decreases ops.len(),
{
    if ops.last().0 == k {
        ops.len() - 1
    } else {
        let init = ops.drop_last();
        let m = choose|m: int| 0 <= m < ops.len() && ops[m].0 == k;
        assert(init[m].0 == k);
        let i = lemma_last_write_exists(init, k);
        assert(init[i] == ops[i]);
        assert forall|j: int| i < j < ops.len() implies ops[j].0 != ops[i].0 by {
            if j < init.len() {
                assert(init[j] == ops[j]);
            }
        }
        i
    }
}

} // verus!
