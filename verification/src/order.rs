//! Putting values in order by a number each of them has, with equals left as they came.
use crate::json::{trees, Json, Tree};
use vstd::prelude::*;

verus! {

/// `s`, which is in order, with `x` behind everything that is not above it.
pub open spec fn put(s: Seq<Tree>, x: Tree, key: spec_fn(Tree) -> int) -> Seq<Tree>
    decreases s.len(),
{
    if s.len() == 0 || key(s.last()) <= key(x) {
        s.push(x)
    } else {
        put(s.drop_last(), x, key).push(s.last())
    }
}

/// `s` in the order of the key, equals in the order in which they stand in `s`.
pub open spec fn ordered(s: Seq<Tree>, key: spec_fn(Tree) -> int) -> Seq<Tree>
    decreases s.len(),
{
    if s.len() == 0 {
        s
    } else {
        put(ordered(s.drop_last(), key), s.last(), key)
    }
}

/// Nothing stands before what it is above.
pub open spec fn in_order(s: Seq<Tree>, key: spec_fn(Tree) -> int) -> bool {
    forall|i: int, j: int| 0 <= i <= j < s.len() ==> key(#[trigger] s[i]) <= key(#[trigger] s[j])
}

/// Those of `s` whose key is `k`, as they stand in `s`.
pub open spec fn at_key(s: Seq<Tree>, key: spec_fn(Tree) -> int, k: int) -> Seq<Tree>
    decreases s.len(),
{
    if s.len() == 0 {
        s
    } else if key(s.last()) == k {
        at_key(s.drop_last(), key, k).push(s.last())
    } else {
        at_key(s.drop_last(), key, k)
    }
}

proof fn lemma_put(s: Seq<Tree>, x: Tree, key: spec_fn(Tree) -> int)
    requires
        in_order(s, key),
    ensures
        in_order(put(s, x, key), key),
        put(s, x, key).to_multiset() == s.push(x).to_multiset(),
        s.len() > 0 ==> key(put(s, x, key).last()) >= key(s.last()) || key(put(s, x, key).last())
            >= key(x),
        forall|i: int|
            0 <= i < put(s, x, key).len() ==> key(#[trigger] put(s, x, key)[i]) <= key(x) || (
            s.len() > 0 && key(put(s, x, key)[i]) <= key(s.last())),
    decreases s.len(),
{
    broadcast use vstd::seq_lib::group_to_multiset_ensures;

    let r = put(s, x, key);
    if s.len() == 0 || key(s.last()) <= key(x) {
        assert forall|i: int, j: int| 0 <= i <= j < r.len() implies key(#[trigger] r[i]) <= key(
            #[trigger] r[j],
        ) by {
            if i < s.len() {
                assert(r[i] == s[i]);
                assert(key(s[i]) <= key(s[s.len() - 1]));
                if j < s.len() {
                    assert(r[j] == s[j]);
                }
            }
        }
        assert forall|i: int| 0 <= i < r.len() implies key(#[trigger] r[i]) <= key(x) by {
            assert(key(r[i]) <= key(r[r.len() - 1]));
        }
    } else {
        let head = s.drop_last();
        let q = put(head, x, key);
        assert(in_order(head, key)) by {
            assert(forall|i: int| 0 <= i < head.len() ==> head[i] == s[i]);
        }
        lemma_put(head, x, key);
        assert(s =~= head.push(s.last()));
        assert(r.to_multiset() =~= s.push(x).to_multiset());
        assert forall|i: int| 0 <= i < q.len() implies key(#[trigger] q[i]) <= key(s.last()) by {
            if head.len() > 0 {
                assert(key(s[s.len() - 2]) <= key(s[s.len() - 1]));
                assert(head.last() == s[s.len() - 2]);
            }
        }
        assert forall|i: int, j: int| 0 <= i <= j < r.len() implies key(#[trigger] r[i]) <= key(
            #[trigger] r[j],
        ) by {
            if j < q.len() {
                assert(r[i] == q[i] && r[j] == q[j]);
            } else if i < q.len() {
                assert(r[i] == q[i]);
            }
        }
        assert forall|i: int| 0 <= i < r.len() implies key(#[trigger] r[i]) <= key(s.last()) by {
            if i < q.len() {
                assert(r[i] == q[i]);
            }
        }
    }
}

proof fn lemma_put_at_key(s: Seq<Tree>, x: Tree, key: spec_fn(Tree) -> int, k: int)
    requires
        in_order(s, key),
    ensures
        at_key(put(s, x, key), key, k) == at_key(s.push(x), key, k),
    decreases s.len(),
{
    assert(s.push(x).drop_last() =~= s);
    if s.len() > 0 && key(s.last()) > key(x) {
        let head = s.drop_last();
        let q = put(head, x, key);
        assert(in_order(head, key)) by {
            assert(forall|i: int| 0 <= i < head.len() ==> head[i] == s[i]);
        }
        lemma_put_at_key(head, x, key, k);
        let r = q.push(s.last());
        assert(put(s, x, key) == r);
        assert(r.drop_last() =~= q);
        assert(head.push(x).drop_last() =~= head);
        assert(at_key(head.push(x), key, k) == if key(x) == k {
            at_key(head, key, k).push(x)
        } else {
            at_key(head, key, k)
        });
        assert(at_key(s, key, k) == if key(s.last()) == k {
            at_key(head, key, k).push(s.last())
        } else {
            at_key(head, key, k)
        });
        assert(at_key(r, key, k) == if key(s.last()) == k {
            at_key(q, key, k).push(s.last())
        } else {
            at_key(q, key, k)
        });
    }
}

/// What is put in order is in order, is the same values, and keeps equals as they came.
pub proof fn law_ordered(s: Seq<Tree>, key: spec_fn(Tree) -> int)
    ensures
        in_order(ordered(s, key), key),
        ordered(s, key).to_multiset() == s.to_multiset(),
        ordered(s, key).len() == s.len(),
        forall|k: int| #[trigger] at_key(ordered(s, key), key, k) == at_key(s, key, k),
    decreases s.len(),
{
    broadcast use vstd::seq_lib::group_to_multiset_ensures;

    if s.len() > 0 {
        let head = s.drop_last();
        law_ordered(head, key);
        lemma_put(ordered(head, key), s.last(), key);
        assert(s =~= head.push(s.last()));
        assert(ordered(s, key).to_multiset() =~= s.to_multiset());
        assert(ordered(s, key).to_multiset().len() == s.to_multiset().len());
        assert forall|k: int| #[trigger]
            at_key(ordered(s, key), key, k) == at_key(s, key, k) by {
            lemma_put_at_key(ordered(head, key), s.last(), key, k);
            let o = ordered(head, key);
            assert(o.push(s.last()).drop_last() =~= o);
            assert(at_key(o, key, k) == at_key(head, key, k));
        }
    }
}

/// Where `put` puts it: in front of the last values that are above it.
proof fn lemma_put_place(s: Seq<Tree>, x: Tree, key: spec_fn(Tree) -> int, i: int)
    requires
        0 <= i <= s.len(),
        i > 0 ==> key(s[i - 1]) <= key(x),
        forall|j: int| i <= j < s.len() ==> key(#[trigger] s[j]) > key(x),
    ensures
        put(s, x, key) == s.insert(i, x),
    decreases s.len(),
{
    if i == s.len() {
        assert(s.insert(i, x) =~= s.push(x));
    } else {
        assert(key(s[s.len() - 1]) > key(x));
        lemma_put_place(s.drop_last(), x, key, i);
        assert(s.insert(i, x) =~= s.drop_last().insert(i, x).push(s.last()));
    }
}

/// The values in the order of their keys, equals left as they came.
pub(crate) fn sort_by_keys(
    items: Vec<Json>,
    keys: &Vec<i128>,
    Ghost(key): Ghost<spec_fn(Tree) -> int>,
) -> (r: Vec<Json>)
    requires
        keys@.len() == items@.len(),
        forall|i: int| 0 <= i < items@.len() ==> #[trigger] keys@[i] == key(items@[i]@),
    ensures
        trees(r@) == ordered(trees(items@), key),
{
    let ghost all = trees(items@);
    let ghost given = items@;
    let mut out: Vec<Json> = Vec::new();
    let mut placed: Vec<i128> = Vec::new();
    let mut n: usize = 0;
    let total: usize = keys.len();
    assert(trees(out@) =~= Seq::<Tree>::empty());
    for x in it: items.into_iter()
        invariant
            it.seq() == given,
            n == it.index(),
            all == trees(given),
            total == keys@.len(),
            total == given.len(),
            forall|i: int| 0 <= i < given.len() ==> #[trigger] keys@[i] == key(given[i]@),
            trees(out@) == ordered(all.take(n as int), key),
            placed@.len() == out@.len(),
            forall|i: int| 0 <= i < out@.len() ==> #[trigger] placed@[i] == key(out@[i]@),
    {
        assert(x == given[n as int]);
        let k: i128 = keys[n];
        let mut i: usize = out.len();
        while i > 0 && placed[i - 1] > k
            invariant
                i <= out@.len(),
                placed@.len() == out@.len(),
                forall|j: int| 0 <= j < out@.len() ==> #[trigger] placed@[j] == key(out@[j]@),
                forall|j: int| i <= j < out@.len() ==> #[trigger] placed@[j] > k,
            decreases i,
        {
            i -= 1;
        }
        proof {
            let s = trees(out@);
            assert(k == key(x@));
            assert(i > 0 ==> key(s[i - 1]) == placed@[i - 1]);
            assert forall|j: int| i <= j < s.len() implies key(#[trigger] s[j]) > key(x@) by {
                assert(placed@[j] > k);
            }
            lemma_put_place(s, x@, key, i as int);
            assert(all.take(n + 1).drop_last() =~= all.take(n as int));
            assert(all.take(n + 1).last() == x@);
            assert(trees(out@.insert(i as int, x)) =~= s.insert(i as int, x@));
        }
        out.insert(i, x);
        placed.insert(i, k);
        n += 1;
    }
    assert(all.take(given.len() as int) =~= all);
    out
}

} // verus!
