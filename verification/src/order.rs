use vstd::prelude::*;

verus! {

/// Position `a` comes before position `b`: the smaller key first, and of two
/// equal keys the one that stood first.
pub open spec fn precedes(keys: Seq<i64>, a: int, b: int) -> bool {
    keys[a] < keys[b] || (keys[a] == keys[b] && a < b)
}

/// `order` lists positions of `keys`, each before all that follow it.
pub open spec fn is_ordered(keys: Seq<i64>, order: Seq<usize>) -> bool {
    &&& forall|i: int| 0 <= i < order.len() ==> (#[trigger] order[i]) < keys.len()
    &&& forall|i: int, j: int|
        0 <= i < j < order.len() ==> #[trigger] precedes(keys, order[i] as int, order[j] as int)
}

/// `order` is the stable ascending order of `keys`: every position of `keys`
/// occurs in it, it is as long as `keys`, and each entry comes before all that
/// follow it.
pub open spec fn is_stable_order(keys: Seq<i64>, order: Seq<usize>) -> bool {
    &&& order.len() == keys.len()
    &&& is_ordered(keys, order)
    &&& forall|p: usize| p < keys.len() ==> #[trigger] order.contains(p)
}

/// The stable ascending order of `keys`.
pub open spec fn stable_order_of(keys: Seq<i64>) -> Seq<usize> {
    choose|order: Seq<usize>| is_stable_order(keys, order)
}

proof fn lemma_orders_agree(keys: Seq<i64>, a: Seq<usize>, b: Seq<usize>, k: int)
    requires
        is_stable_order(keys, a),
        is_stable_order(keys, b),
        0 <= k <= keys.len(),
    ensures
        forall|j: int| 0 <= j < k ==> a[j] == b[j],
    decreases k,
{
    if k > 0 {
        lemma_orders_agree(keys, a, b, k - 1);
        let p = a[k - 1];
        let q = b[k - 1];
        if p != q {
            assert(b.contains(p));
            let m = choose|m: int| 0 <= m < b.len() && b[m] == p;
            assert(a.contains(q));
            let l = choose|l: int| 0 <= l < a.len() && a[l] == q;
            if m < k - 1 {
                assert(a[m] == p);
                assert(precedes(keys, a[m] as int, a[k - 1] as int));
            } else {
                assert(precedes(keys, b[k - 1] as int, b[m] as int));
                if l < k - 1 {
                    assert(b[l] == q);
                    assert(precedes(keys, b[l] as int, b[k - 1] as int));
                } else {
                    assert(precedes(keys, a[k - 1] as int, a[l] as int));
                }
            }
        }
    }
}

/// A list of keys has one stable ascending order only.
pub proof fn lemma_stable_order_unique(keys: Seq<i64>, a: Seq<usize>, b: Seq<usize>)
    requires
        is_stable_order(keys, a),
        is_stable_order(keys, b),
    ensures
        a == b,
{
    lemma_orders_agree(keys, a, b, keys.len() as int);
    assert(a =~= b);
}

/// `order` lists every position below `n` once.
pub open spec fn is_arrangement(order: Seq<usize>, n: nat) -> bool {
    &&& order.len() == n
    &&& forall|i: int| 0 <= i < order.len() ==> (#[trigger] order[i]) < n
    &&& forall|i: int, j: int| 0 <= i < j < order.len() ==> order[i] != order[j]
    &&& forall|p: usize| p < n ==> #[trigger] order.contains(p)
}

/// The entries of `values` in the order that `order` gives.
pub open spec fn arranged<T>(values: Seq<T>, order: Seq<usize>) -> Seq<T> {
    Seq::new(order.len(), |k: int| values[order[k] as int])
}

/// A stable order lists every position once.
pub proof fn lemma_stable_order_arranges(keys: Seq<i64>, order: Seq<usize>)
    requires
        is_stable_order(keys, order),
    ensures
        is_arrangement(order, keys.len()),
{
    assert forall|i: int, j: int| 0 <= i < j < order.len() implies order[i] != order[j] by {
        assert(precedes(keys, order[i] as int, order[j] as int));
    }
}

/// Entries that are put in another order are the same entries, each as
/// often as before.
pub proof fn lemma_arranged_keeps_entries<T>(values: Seq<T>, order: Seq<usize>)
    requires
        is_arrangement(order, values.len()),
        values.len() <= usize::MAX,
    ensures
        arranged(values, order).to_multiset() == values.to_multiset(),
    decreases values.len(),
{
    broadcast use vstd::multiset::group_multiset_axioms;
    broadcast use vstd::seq_lib::group_to_multiset_ensures;

    let n = values.len();
    let moved = arranged(values, order);
    if n == 0 {
        assert(moved =~= values);
    } else {
        let last = (n - 1) as usize;
        assert(order.contains(last));
        let m = choose|m: int| 0 <= m < order.len() && order[m] == last;
        let rest = order.remove(m);
        let head = values.drop_last();
        assert forall|i: int| 0 <= i < rest.len() implies (#[trigger] rest[i]) < head.len() by {
            if i < m {
                assert(rest[i] == order[i]);
                assert(order[i] != order[m]);
            } else {
                assert(rest[i] == order[i + 1]);
                assert(order[m] != order[i + 1]);
            }
        }
        assert forall|i: int, j: int| 0 <= i < j < rest.len() implies rest[i] != rest[j] by {
            let x = if i < m {
                i
            } else {
                i + 1
            };
            let y = if j < m {
                j
            } else {
                j + 1
            };
            assert(rest[i] == order[x] && rest[j] == order[y]);
        }
        assert forall|p: usize| p < head.len() implies #[trigger] rest.contains(p) by {
            assert(order.contains(p));
            let k = choose|k: int| 0 <= k < order.len() && order[k] == p;
            if k < m {
                assert(rest[k] == p);
            } else {
                assert(k > m);
                assert(rest[k - 1] == p);
            }
        }
        lemma_arranged_keeps_entries(head, rest);
        assert(moved.remove(m) =~= arranged(head, rest)) by {
            assert forall|k: int| 0 <= k < rest.len() implies moved.remove(m)[k] == arranged(
                head,
                rest,
            )[k] by {
                if k < m {
                    assert(rest[k] == order[k]);
                } else {
                    assert(rest[k] == order[k + 1]);
                }
            }
        }
        assert(moved[m] == values.last());
        assert(head.push(values.last()) =~= values);
        assert(moved.remove(m).to_multiset() == moved.to_multiset().remove(moved[m]));
        assert(moved.to_multiset().count(moved[m]) > 0) by {
            assert(moved.contains(moved[m]));
        }
        assert(moved.to_multiset() =~= moved.remove(m).to_multiset().insert(moved[m]));
        assert(values.to_multiset() =~= head.to_multiset().insert(values.last()));
    }
}

/// Number of leading entries of `order` whose key is no greater than `key`.
spec fn leading_no_greater(keys: Seq<i64>, order: Seq<usize>, key: i64) -> int
    decreases order.len(),
{
    if order.len() == 0 || keys[order[0] as int] > key {
        0
    } else {
        1 + leading_no_greater(keys, order.drop_first(), key)
    }
}

proof fn lemma_leading_no_greater(keys: Seq<i64>, order: Seq<usize>, key: i64)
    ensures
        0 <= leading_no_greater(keys, order, key) <= order.len(),
        forall|x: int|
            0 <= x < leading_no_greater(keys, order, key) ==> keys[(#[trigger] order[x]) as int]
                <= key,
        leading_no_greater(keys, order, key) < order.len() ==> keys[order[leading_no_greater(
            keys,
            order,
            key,
        )] as int] > key,
    decreases order.len(),
{
    if !(order.len() == 0 || keys[order[0] as int] > key) {
        let tail = order.drop_first();
        lemma_leading_no_greater(keys, tail, key);
        let p = leading_no_greater(keys, order, key);
        assert forall|x: int| 0 <= x < p implies keys[(#[trigger] order[x]) as int] <= key by {
            if x > 0 {
                assert(tail[x - 1] == order[x]);
            }
        }
        if p < order.len() {
            assert(tail[p - 1] == order[p]);
        }
    }
}

/// Every list of keys has a stable ascending order.
pub proof fn lemma_stable_order_exists(keys: Seq<i64>)
    requires
        keys.len() <= usize::MAX,
    ensures
        is_stable_order(keys, stable_order_of(keys)),
    decreases keys.len(),
{
    let n = keys.len();
    if n == 0 {
        let none = Seq::<usize>::empty();
        assert(is_stable_order(keys, none));
    } else {
        let head = keys.drop_last();
        lemma_stable_order_exists(head);
        let before = stable_order_of(head);
        let last = (n - 1) as usize;
        let key = keys[n - 1];
        lemma_leading_no_greater(keys, before, key);
        let p = leading_no_greater(keys, before, key);
        let order = before.insert(p, last);
        assert forall|i: int| 0 <= i < order.len() implies (#[trigger] order[i]) < keys.len() by {
            if i < p {
                assert(order[i] == before[i]);
            } else if i > p {
                assert(order[i] == before[i - 1]);
            }
        }
        assert forall|i: int, j: int| 0 <= i < j < order.len() implies #[trigger] precedes(
            keys,
            order[i] as int,
            order[j] as int,
        ) by {
            if j < p {
                assert(order[i] == before[i] && order[j] == before[j]);
                assert(precedes(head, before[i] as int, before[j] as int));
            } else if j == p {
                assert(order[i] == before[i]);
                assert(before[i] < head.len());
            } else if i < p {
                assert(order[i] == before[i] && order[j] == before[j - 1]);
                assert(precedes(head, before[i] as int, before[j - 1] as int));
            } else if i == p {
                assert(order[j] == before[j - 1]);
                if j - 1 > p {
                    assert(precedes(head, before[p] as int, before[j - 1] as int));
                }
                assert(before[j - 1] < head.len());
                assert(before[p] < head.len());
            } else {
                assert(order[i] == before[i - 1] && order[j] == before[j - 1]);
                assert(precedes(head, before[i - 1] as int, before[j - 1] as int));
            }
        }
        assert forall|q: usize| q < keys.len() implies #[trigger] order.contains(q) by {
            if q == last {
                assert(order[p] == q);
            } else {
                assert(before.contains(q));
                let k = choose|k: int| 0 <= k < before.len() && before[k] == q;
                if k < p {
                    assert(order[k] == q);
                } else {
                    assert(order[k + 1] == q);
                }
            }
        }
        assert(is_stable_order(keys, order));
    }
}

/// `done` holds every entry of the first `n` of `source`.
spec fn holds_prefix(done: Seq<usize>, source: Seq<usize>, n: int) -> bool {
    forall|a: int| 0 <= a < n ==> done.contains(#[trigger] source[a])
}

/// Every position in `lo..hi` occurs in `order`.
spec fn covers(order: Seq<usize>, lo: int, hi: int) -> bool {
    forall|p: usize| lo <= p < hi ==> #[trigger] order.contains(p)
}

/// All entries of `order` lie in `lo..hi`.
spec fn within(order: Seq<usize>, lo: int, hi: int) -> bool {
    forall|i: int| 0 <= i < order.len() ==> lo <= #[trigger] order[i] < hi
}

proof fn lemma_push_keeps(done: Seq<usize>, e: usize, source: Seq<usize>, n: int)
    requires
        holds_prefix(done, source, n),
    ensures
        holds_prefix(done.push(e), source, n),
{
    assert forall|a: int| 0 <= a < n implies done.push(e).contains(#[trigger] source[a]) by {
        let k = choose|k: int| 0 <= k < done.len() && done[k] == source[a];
        assert(done.push(e)[k] == source[a]);
    }
}

fn merge(
    keys: &Vec<i64>,
    left: &Vec<usize>,
    right: &Vec<usize>,
    Ghost(lo): Ghost<int>,
    Ghost(mid): Ghost<int>,
    Ghost(hi): Ghost<int>,
) -> (out: Vec<usize>)
    requires
        0 <= lo <= mid <= hi <= keys.len(),
        is_ordered(keys@, left@),
        is_ordered(keys@, right@),
        within(left@, lo, mid),
        within(right@, mid, hi),
        left.len() + right.len() <= usize::MAX,
    ensures
        out.len() == left.len() + right.len(),
        is_ordered(keys@, out@),
        within(out@, lo, hi),
        holds_prefix(out@, left@, left.len() as int),
        holds_prefix(out@, right@, right.len() as int),
{
    let mut out: Vec<usize> = Vec::new();
    let mut i: usize = 0;
    let mut j: usize = 0;
    while i < left.len() || j < right.len()
        invariant
            0 <= lo <= mid <= hi <= keys.len(),
            is_ordered(keys@, left@),
            is_ordered(keys@, right@),
            within(left@, lo, mid),
            within(right@, mid, hi),
            i <= left.len(),
            j <= right.len(),
            out.len() == i + j,
            is_ordered(keys@, out@),
            within(out@, lo, hi),
            holds_prefix(out@, left@, i as int),
            holds_prefix(out@, right@, j as int),
            forall|k: int, a: int|
                0 <= k < out.len() && i <= a < left.len() ==> #[trigger] precedes(
                    keys@,
                    out[k] as int,
                    left[a] as int,
                ),
            forall|k: int, b: int|
                0 <= k < out.len() && j <= b < right.len() ==> #[trigger] precedes(
                    keys@,
                    out[k] as int,
                    right[b] as int,
                ),
        decreases left.len() - i + right.len() - j,
    {
        let take_left = if i == left.len() {
            false
        } else if j == right.len() {
            true
        } else {
            keys[left[i]] <= keys[right[j]]
        };
        let ghost before = out@;
        if take_left {
            let e = left[i];
            out.push(e);
            proof {
                lemma_push_keeps(before, e, left@, i as int);
                lemma_push_keeps(before, e, right@, j as int);
                assert(out@[before.len() as int] == left[i as int]);
                assert forall|k: int, a: int|
                    0 <= k < out.len() && i + 1 <= a < left.len() implies #[trigger] precedes(
                    keys@,
                    out[k] as int,
                    left[a] as int,
                ) by {
                    if k < before.len() {
                        assert(out[k] == before[k]);
                    } else {
                        assert(precedes(keys@, left[i as int] as int, left[a] as int));
                    }
                }
                assert forall|k: int, b: int|
                    0 <= k < out.len() && j <= b < right.len() implies #[trigger] precedes(
                    keys@,
                    out[k] as int,
                    right[b] as int,
                ) by {
                    if k < before.len() {
                        assert(out[k] == before[k]);
                    } else {
                        assert(left[i as int] < mid <= right[b]);
                        if b > j {
                            assert(precedes(keys@, right[j as int] as int, right[b] as int));
                        }
                    }
                }
                assert forall|x: int, y: int| 0 <= x < y < out.len() implies #[trigger] precedes(
                    keys@,
                    out[x] as int,
                    out[y] as int,
                ) by {
                    if y < before.len() {
                        assert(out[x] == before[x] && out[y] == before[y]);
                    } else {
                        assert(out[x] == before[x]);
                        assert(precedes(keys@, before[x] as int, left[i as int] as int));
                    }
                }
            }
            i += 1;
        } else {
            let e = right[j];
            out.push(e);
            proof {
                lemma_push_keeps(before, e, left@, i as int);
                lemma_push_keeps(before, e, right@, j as int);
                assert(out@[before.len() as int] == right[j as int]);
                assert forall|k: int, a: int|
                    0 <= k < out.len() && i <= a < left.len() implies #[trigger] precedes(
                    keys@,
                    out[k] as int,
                    left[a] as int,
                ) by {
                    if k < before.len() {
                        assert(out[k] == before[k]);
                    } else {
                        if a > i {
                            assert(precedes(keys@, left[i as int] as int, left[a] as int));
                        }
                    }
                }
                assert forall|k: int, b: int|
                    0 <= k < out.len() && j + 1 <= b < right.len() implies #[trigger] precedes(
                    keys@,
                    out[k] as int,
                    right[b] as int,
                ) by {
                    if k < before.len() {
                        assert(out[k] == before[k]);
                    } else {
                        assert(precedes(keys@, right[j as int] as int, right[b] as int));
                    }
                }
                assert forall|x: int, y: int| 0 <= x < y < out.len() implies #[trigger] precedes(
                    keys@,
                    out[x] as int,
                    out[y] as int,
                ) by {
                    if y < before.len() {
                        assert(out[x] == before[x] && out[y] == before[y]);
                    } else {
                        assert(out[x] == before[x]);
                        assert(precedes(keys@, before[x] as int, right[j as int] as int));
                    }
                }
            }
            j += 1;
        }
    }
    out
}

fn order_range(keys: &Vec<i64>, lo: usize, hi: usize) -> (out: Vec<usize>)
    requires
        lo <= hi <= keys.len(),
    ensures
        out.len() == hi - lo,
        is_ordered(keys@, out@),
        within(out@, lo as int, hi as int),
        covers(out@, lo as int, hi as int),
    decreases hi - lo,
{
    if hi - lo == 0 {
        Vec::new()
    } else if hi - lo == 1 {
        let mut out: Vec<usize> = Vec::new();
        out.push(lo);
        assert(out@[0] == lo);
        out
    } else {
        let mid = lo + (hi - lo) / 2;
        let left = order_range(keys, lo, mid);
        let right = order_range(keys, mid, hi);
        let out = merge(
            keys,
            &left,
            &right,
            Ghost(lo as int),
            Ghost(mid as int),
            Ghost(hi as int),
        );
        proof {
            assert forall|p: usize| lo <= p < hi implies #[trigger] out@.contains(p) by {
                if p < mid {
                    assert(left@.contains(p));
                    let a = choose|a: int| 0 <= a < left.len() && left@[a] == p;
                    assert(out@.contains(left@[a]));
                } else {
                    assert(right@.contains(p));
                    let b = choose|b: int| 0 <= b < right.len() && right@[b] == p;
                    assert(out@.contains(right@[b]));
                }
            }
        }
        out
    }
}

/// Returns the positions of `keys` in ascending order of key; positions with
/// equal keys keep the order in which they stand.
pub fn stable_order(keys: &Vec<i64>) -> (order: Vec<usize>)
    ensures
        is_stable_order(keys@, order@),
        order@ == stable_order_of(keys@),
{
    let order = order_range(keys, 0, keys.len());
    proof {
        let found = order@;
        assert(is_stable_order(keys@, found));
        let chosen = choose|o: Seq<usize>| is_stable_order(keys@, o);
        assert(is_stable_order(keys@, chosen));
        lemma_stable_order_unique(keys@, found, chosen);
    }
    order
}

} // verus!
