//! Arrangements: the same items in a given order.
use vstd::prelude::*;
use vstd::relations::*;
use vstd::seq_lib::*;

verus! {

/// `arranged` holds the items of `items`, each as often, in the order `leq`.
pub open spec fn is_arrangement<A>(
    items: Seq<A>,
    arranged: Seq<A>,
    leq: spec_fn(A, A) -> bool,
) -> bool {
    sorted_by(arranged, leq) && arranged.to_multiset() == items.to_multiset()
}

/// A total order leaves one arrangement only.
pub proof fn an_arrangement_is_unique<A>(
    items: Seq<A>,
    x: Seq<A>,
    y: Seq<A>,
    leq: spec_fn(A, A) -> bool,
)
    requires
        total_ordering(leq),
        is_arrangement(items, x, leq),
        is_arrangement(items, y, leq),
    ensures
        x == y,
{
    same_items_same_order(x, y, leq);
}

proof fn same_items_same_order<A>(x: Seq<A>, y: Seq<A>, leq: spec_fn(A, A) -> bool)
    requires
        total_ordering(leq),
        sorted_by(x, leq),
        sorted_by(y, leq),
        x.to_multiset() == y.to_multiset(),
    ensures
        x == y,
    decreases x.len(),
{
    broadcast use group_to_multiset_ensures;

    assert(x.len() == x.to_multiset().len());
    assert(y.len() == y.to_multiset().len());
    if x.len() == 0 {
        assert(x =~= y);
    } else {
        let (a, b) = (x.last(), y.last());
        assert(x.contains(a)) by {
            assert(x[x.len() - 1] == a);
        }
        assert(y.contains(b)) by {
            assert(y[y.len() - 1] == b);
        }
        assert(y.to_multiset().count(a) > 0);
        assert(x.to_multiset().count(b) > 0);
        assert(y.contains(a));
        assert(x.contains(b));
        let i = choose|i: int| 0 <= i < y.len() && y[i] == a;
        let j = choose|j: int| 0 <= j < x.len() && x[j] == b;
        assert(leq(a, b)) by {
            if i < y.len() - 1 {
                assert(leq(y[i], y[y.len() - 1]));
            }
        }
        assert(leq(b, a)) by {
            if j < x.len() - 1 {
                assert(leq(x[j], x[x.len() - 1]));
            }
        }
        assert(a == b);
        assert(x.remove(x.len() - 1) =~= x.drop_last());
        assert(y.remove(y.len() - 1) =~= y.drop_last());
        assert(x.drop_last().to_multiset() == x.to_multiset().remove(a));
        assert(y.drop_last().to_multiset() == y.to_multiset().remove(b));
        let (front, other) = (x.drop_last(), y.drop_last());
        assert forall|p: int, q: int| 0 <= p < q < front.len() implies #[trigger] leq(
            front[p],
            front[q],
        ) by {
            assert(leq(x[p], x[q]));
        }
        assert forall|p: int, q: int| 0 <= p < q < other.len() implies #[trigger] leq(
            other[p],
            other[q],
        ) by {
            assert(leq(y[p], y[q]));
        }
        same_items_same_order(front, other, leq);
        assert(x =~= front.push(a));
        assert(y =~= other.push(b));
    }
}

/// A sort key: a number, and the place that breaks a tie.
pub type Key = (u64, usize);

/// Keys by number, ties by place.
pub open spec fn key_leq(a: Key, b: Key) -> bool {
    a.0 < b.0 || (a.0 == b.0 && a.1 <= b.1)
}

/// `arranged` holds the keys of `keys` by number, ties by place.
pub open spec fn is_key_arrangement(keys: Seq<Key>, arranged: Seq<Key>) -> bool {
    is_arrangement(keys, arranged, |a: Key, b: Key| key_leq(a, b))
}

/// The order of keys is total.
pub proof fn key_order_is_total()
    ensures
        total_ordering(|a: Key, b: Key| key_leq(a, b)),
{
}

fn merge(a: &Vec<Key>, b: &Vec<Key>) -> (r: Vec<Key>)
    requires
        sorted_by(a@, |x: Key, y: Key| key_leq(x, y)),
        sorted_by(b@, |x: Key, y: Key| key_leq(x, y)),
    ensures
        sorted_by(r@, |x: Key, y: Key| key_leq(x, y)),
        r@.to_multiset() == a@.to_multiset().add(b@.to_multiset()),
{
    broadcast use group_to_multiset_ensures;

    let ghost leq = |x: Key, y: Key| key_leq(x, y);
    let mut out: Vec<Key> = Vec::new();
    let mut i: usize = 0;
    let mut j: usize = 0;
    assert(a@.take(0) =~= Seq::<Key>::empty());
    assert(b@.take(0) =~= Seq::<Key>::empty());
    assert(out@ =~= Seq::<Key>::empty());
    assert(out@.to_multiset() =~= a@.take(0).to_multiset().add(b@.take(0).to_multiset()));
    while i < a.len() || j < b.len()
        invariant
            i <= a@.len(),
            j <= b@.len(),
            leq == (|x: Key, y: Key| key_leq(x, y)),
            sorted_by(a@, leq),
            sorted_by(b@, leq),
            sorted_by(out@, leq),
            out@.to_multiset() == a@.take(i as int).to_multiset().add(
                b@.take(j as int).to_multiset(),
            ),
            forall|p: int, q: int|
                0 <= p < out@.len() && i <= q < a@.len() ==> key_leq(
                    #[trigger] out@[p],
                    #[trigger] a@[q],
                ),
            forall|p: int, q: int|
                0 <= p < out@.len() && j <= q < b@.len() ==> key_leq(
                    #[trigger] out@[p],
                    #[trigger] b@[q],
                ),
        decreases (a@.len() - i) + (b@.len() - j),
    {
        let from_left = if i == a.len() {
            false
        } else if j == b.len() {
            true
        } else {
            a[i].0 < b[j].0 || (a[i].0 == b[j].0 && a[i].1 <= b[j].1)
        };
        let ghost before = out@;
        if from_left {
            let key: Key = a[i];
            proof {
                assert(a@.take(i + 1) =~= a@.take(i as int).push(key));
                assert forall|q: int| i <= q < a@.len() implies key_leq(key, a@[q]) by {
                    if q > i {
                        assert(leq(a@[i as int], a@[q]));
                    }
                }
                assert forall|q: int| j <= q < b@.len() implies key_leq(key, b@[q]) by {
                    if q > j {
                        assert(leq(b@[j as int], b@[q]));
                    }
                }
            }
            out.push(key);
            broadcast use group_to_multiset_ensures;
            broadcast use vstd::multiset::group_multiset_axioms;

            assert(out@.to_multiset() =~= a@.take(i + 1).to_multiset().add(
                b@.take(j as int).to_multiset(),
            ));
            i += 1;
        } else {
            let key: Key = b[j];
            proof {
                assert(b@.take(j + 1) =~= b@.take(j as int).push(key));
                assert forall|q: int| i <= q < a@.len() implies key_leq(key, a@[q]) by {
                    if q > i {
                        assert(leq(a@[i as int], a@[q]));
                    }
                }
                assert forall|q: int| j <= q < b@.len() implies key_leq(key, b@[q]) by {
                    if q > j {
                        assert(leq(b@[j as int], b@[q]));
                    }
                }
            }
            out.push(key);
            broadcast use group_to_multiset_ensures;
            broadcast use vstd::multiset::group_multiset_axioms;

            assert(out@.to_multiset() =~= a@.take(i as int).to_multiset().add(
                b@.take(j + 1).to_multiset(),
            ));
            j += 1;
        }
        assert forall|p: int, q: int| 0 <= p < q < out@.len() implies #[trigger] leq(
            out@[p],
            out@[q],
        ) by {
            if q < before.len() {
                assert(leq(before[p], before[q]));
            }
        }
    }
    assert(a@.take(i as int) =~= a@);
    assert(b@.take(j as int) =~= b@);
    out
}

fn keys_between(keys: &Vec<Key>, from: usize, to: usize) -> (r: Vec<Key>)
    requires
        from <= to <= keys@.len(),
    ensures
        r@ == keys@.subrange(from as int, to as int),
{
    let mut out: Vec<Key> = Vec::new();
    let mut i: usize = from;
    while i < to
        invariant
            from <= i <= to <= keys@.len(),
            out@ == keys@.subrange(from as int, i as int),
        decreases to - i,
    {
        out.push(keys[i]);
        i += 1;
    }
    out
}

/// Arranges keys by number, ties by place.
pub fn sort_keys(keys: &Vec<Key>) -> (r: Vec<Key>)
    ensures
        is_key_arrangement(keys@, r@),
    decreases keys@.len(),
{
    if keys.len() <= 1 {
        let same = keys_between(keys, 0, keys.len());
        assert(same@ =~= keys@);
        return same;
    }
    let half: usize = keys.len() / 2;
    let left = keys_between(keys, 0, half);
    let right = keys_between(keys, half, keys.len());
    let left_sorted = sort_keys(&left);
    let right_sorted = sort_keys(&right);
    let sorted = merge(&left_sorted, &right_sorted);
    proof {
        lemma_multiset_commutative(left@, right@);
        assert(left@ + right@ =~= keys@);
    }
    sorted
}

} // verus!
