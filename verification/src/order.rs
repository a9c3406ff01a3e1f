//! Putting names in order, by their bytes.

use vstd::prelude::*;

verus! {

/// `a` does not come after `b`: the first byte in which they differ decides,
/// and a name comes before its own continuations.
pub open spec fn le(a: Seq<u8>, b: Seq<u8>) -> bool
    decreases a.len(),
{
    if a.len() == 0 {
        true
    } else if b.len() == 0 {
        false
    } else if a[0] != b[0] {
        a[0] < b[0]
    } else {
        le(a.drop_first(), b.drop_first())
    }
}

/// Where `key` goes among those of `order`: behind all that do not come after it.
pub open spec fn place(keys: Seq<Seq<u8>>, order: Seq<int>, key: Seq<u8>) -> int
    decreases order.len(),
{
    if order.len() == 0 || le(keys[order.last()], key) {
        order.len() as int
    } else {
        place(keys, order.drop_last(), key)
    }
}

/// The first `n` of `keys`, by their indices, in ascending order; those that
/// are equal stay in the order in which they came.
pub open spec fn sorted_first(keys: Seq<Seq<u8>>, n: nat) -> Seq<int>
    decreases n,
{
    if n == 0 {
        Seq::empty()
    } else {
        let order = sorted_first(keys, (n - 1) as nat);
        order.insert(place(keys, order, keys[n - 1]), n - 1)
    }
}

/// The indices of `keys` in ascending order of the keys.
pub open spec fn sorted(keys: Seq<Seq<u8>>) -> Seq<int> {
    sorted_first(keys, keys.len())
}

/// The order is total.
proof fn lemma_le_total(a: Seq<u8>, b: Seq<u8>)
    ensures
        le(a, b) || le(b, a),
    decreases a.len(),
{
    if a.len() > 0 && b.len() > 0 && a[0] == b[0] {
        lemma_le_total(a.drop_first(), b.drop_first());
    }
}

/// The order is transitive.
proof fn lemma_le_transitive(a: Seq<u8>, b: Seq<u8>, c: Seq<u8>)
    requires
        le(a, b),
        le(b, c),
    ensures
        le(a, c),
    decreases a.len(),
{
    if a.len() > 0 && a[0] == b[0] && b[0] == c[0] {
        lemma_le_transitive(a.drop_first(), b.drop_first(), c.drop_first());
    }
}

/// Names of which neither comes after the other are the same.
pub proof fn lemma_le_antisymmetric(a: Seq<u8>, b: Seq<u8>)
    requires
        le(a, b),
        le(b, a),
    ensures
        a == b,
    decreases a.len(),
{
    if a.len() > 0 && b.len() > 0 {
        lemma_le_antisymmetric(a.drop_first(), b.drop_first());
        assert(a =~= seq![a[0]] + a.drop_first());
        assert(b =~= seq![b[0]] + b.drop_first());
    } else {
        assert(a =~= b);
    }
}

/// A key has a place in bounds.
proof fn lemma_place_bounds(keys: Seq<Seq<u8>>, order: Seq<int>, key: Seq<u8>)
    ensures
        0 <= place(keys, order, key) <= order.len(),
    decreases order.len(),
{
    if order.len() > 0 && !le(keys[order.last()], key) {
        lemma_place_bounds(keys, order.drop_last(), key);
    }
}

/// `order` lists its keys in ascending order.
pub open spec fn ascending(keys: Seq<Seq<u8>>, order: Seq<int>) -> bool {
    forall|i: int, j: int|
        #![trigger order[i], order[j]]
        0 <= i < j < order.len() ==> le(keys[order[i]], keys[order[j]])
}

/// The front of an ascending order is ascending.
pub proof fn lemma_ascending_front(keys: Seq<Seq<u8>>, order: Seq<int>)
    requires
        ascending(keys, order),
        order.len() > 0,
    ensures
        ascending(keys, order.drop_last()),
{
    let shorter = order.drop_last();
    assert forall|i: int, j: int|
        #![trigger shorter[i], shorter[j]]
        0 <= i < j < shorter.len() implies le(keys[shorter[i]], keys[shorter[j]]) by {
        assert(shorter[i] == order[i] && shorter[j] == order[j]);
    }
}

/// What is before the place of a key does not come after it, and what is
/// behind it does.
proof fn lemma_place_splits(keys: Seq<Seq<u8>>, order: Seq<int>, key: Seq<u8>)
    requires
        ascending(keys, order),
    ensures
        0 <= place(keys, order, key) <= order.len(),
        forall|i: int| 0 <= i < place(keys, order, key) ==> le(keys[#[trigger] order[i]], key),
        forall|i: int|
            place(keys, order, key) <= i < order.len() ==> !le(keys[#[trigger] order[i]], key),
    decreases order.len(),
{
    lemma_place_bounds(keys, order, key);
    if order.len() > 0 {
        if le(keys[order.last()], key) {
            assert forall|i: int| 0 <= i < order.len() implies le(keys[#[trigger] order[i]], key) by {
                if i < order.len() - 1 {
                    lemma_le_transitive(keys[order[i]], keys[order.last()], key);
                }
            }
        } else {
            let shorter = order.drop_last();
            lemma_ascending_front(keys, order);
            lemma_place_splits(keys, shorter, key);
            lemma_place_bounds(keys, shorter, key);
            assert forall|i: int| 0 <= i < place(keys, order, key) implies le(
                keys[#[trigger] order[i]],
                key,
            ) by {
                assert(order[i] == shorter[i]);
            }
            assert forall|i: int| place(keys, order, key) <= i < order.len() implies !le(
                keys[#[trigger] order[i]],
                key,
            ) by {
                if i < shorter.len() {
                    assert(order[i] == shorter[i]);
                }
            }
        }
    }
}

/// `order` holds each index below `n` once, and nothing else.
pub open spec fn permutes(order: Seq<int>, n: nat) -> bool {
    &&& order.len() == n
    &&& forall|i: int| 0 <= i < n ==> 0 <= #[trigger] order[i] < n
    &&& forall|i: int, j: int| 0 <= i < j < n ==> order[i] != order[j]
    &&& forall|k: int| 0 <= k < n ==> #[trigger] order.contains(k)
}

/// Sorting loses nothing, adds nothing, and puts the keys in ascending order.
pub proof fn sorting_sorts(keys: Seq<Seq<u8>>, n: nat)
    requires
        n <= keys.len(),
    ensures
        permutes(sorted_first(keys, n), n),
        ascending(keys, sorted_first(keys, n)),
    decreases n,
{
    if n > 0 {
        let m = (n - 1) as nat;
        let before = sorted_first(keys, m);
        sorting_sorts(keys, m);
        let key = keys[n - 1];
        lemma_place_splits(keys, before, key);
        let at = place(keys, before, key);
        let after = sorted_first(keys, n);
        assert(after == before.insert(at, n - 1));
        assert forall|i: int, j: int|
            #![trigger after[i], after[j]]
            0 <= i < j < after.len() implies le(keys[after[i]], keys[after[j]]) by {
            if j == at {
                assert(after[i] == before[i]);
            } else if i == at {
                assert(after[j] == before[j - 1]);
                lemma_le_total(key, keys[before[j - 1]]);
            } else {
                let a = if i < at { i } else { i - 1 };
                let b = if j < at { j } else { j - 1 };
                assert(after[i] == before[a] && after[j] == before[b]);
            }
        }
        assert forall|i: int| 0 <= i < n implies 0 <= #[trigger] after[i] < n by {
            if i < at {
                assert(after[i] == before[i]);
            } else if i > at {
                assert(after[i] == before[i - 1]);
            }
        }
        assert forall|i: int, j: int| 0 <= i < j < n implies after[i] != after[j] by {
            let a = if i < at { i } else { i - 1 };
            let b = if j < at { j } else { j - 1 };
            if i != at {
                assert(after[i] == before[a]);
            }
            if j != at {
                assert(after[j] == before[b]);
            }
        }
        assert forall|k: int| 0 <= k < n implies #[trigger] after.contains(k) by {
            if k == n - 1 {
                assert(after[at] == k);
            } else {
                assert(before.contains(k));
                let i = choose|i: int| 0 <= i < before.len() && before[i] == k;
                assert(after[if i < at { i } else { i + 1 }] == k);
            }
        }
    }
}

/// Where a key goes does not depend on a key that is not there yet.
proof fn lemma_place_prefix(keys: Seq<Seq<u8>>, more: Seq<u8>, order: Seq<int>, key: Seq<u8>)
    requires
        forall|i: int| 0 <= i < order.len() ==> 0 <= #[trigger] order[i] < keys.len(),
    ensures
        place(keys.push(more), order, key) == place(keys, order, key),
    decreases order.len(),
{
    if order.len() > 0 {
        let shorter = order.drop_last();
        assert(0 <= order[order.len() - 1] < keys.len());
        assert forall|i: int| 0 <= i < shorter.len() implies 0 <= #[trigger] shorter[i]
            < keys.len() by {
            assert(shorter[i] == order[i]);
        }
        lemma_place_prefix(keys, more, shorter, key);
    }
}

/// The order of the first keys does not depend on a key behind them.
pub proof fn lemma_sorted_prefix(keys: Seq<Seq<u8>>, more: Seq<u8>, n: nat)
    requires
        n <= keys.len(),
    ensures
        sorted_first(keys.push(more), n) == sorted_first(keys, n),
    decreases n,
{
    if n > 0 {
        let m = (n - 1) as nat;
        let order = sorted_first(keys, m);
        lemma_sorted_prefix(keys, more, m);
        sorting_sorts(keys, m);
        assert forall|i: int| 0 <= i < order.len() implies 0 <= #[trigger] order[i]
            < keys.len() by {}
        lemma_place_prefix(keys, more, order, keys[n - 1]);
    }
}

/// Whether `a` does not come after `b`.
pub fn compare_le(a: &[u8], b: &[u8]) -> (r: bool)
    ensures
        r == le(a@, b@),
{
    let mut i: usize = 0;
    proof {
        assert(a@.skip(0) =~= a@);
        assert(b@.skip(0) =~= b@);
    }
    while i < a.len()
        invariant
            i <= a.len(),
            i <= b.len(),
            le(a@, b@) == le(a@.skip(i as int), b@.skip(i as int)),
        decreases a.len() - i,
    {
        if i >= b.len() {
            return false;
        }
        if a[i] != b[i] {
            return a[i] < b[i];
        }
        proof {
            assert(a@.skip(i as int).drop_first() =~= a@.skip(i + 1));
            assert(b@.skip(i as int).drop_first() =~= b@.skip(i + 1));
        }
        i += 1;
    }
    true
}

/// The indices of `order` as mathematical integers.
pub open spec fn indices(order: Seq<usize>) -> Seq<int> {
    order.map_values(|i: usize| i as int)
}

/// The indices of `keys` in ascending order of the keys.
pub fn sort_indices(keys: &Vec<Vec<u8>>) -> (r: Vec<usize>)
    ensures
        indices(r@) == sorted(crate::paths::byte_views(keys@)),
        r@.len() == keys@.len(),
        forall|i: int| 0 <= i < r@.len() ==> #[trigger] r@[i] < keys@.len(),
{
    let mut r: Vec<usize> = Vec::new();
    let ghost views = crate::paths::byte_views(keys@);
    let mut n: usize = 0;
    proof {
        assert(indices(r@) =~= sorted_first(views, 0));
    }
    while n < keys.len()
        invariant
            n <= keys.len(),
            views == crate::paths::byte_views(keys@),
            r@.len() == n,
            indices(r@) == sorted_first(views, n as nat),
            forall|i: int| 0 <= i < r@.len() ==> #[trigger] r@[i] < n,
        decreases keys.len() - n,
    {
        let mut at: usize = r.len();
        proof {
            assert(indices(r@).take(at as int) =~= indices(r@));
        }
        while at > 0 && !compare_le(keys[r[at - 1]].as_slice(), keys[n].as_slice())
            invariant
                at <= r.len(),
                n < keys.len(),
                views == crate::paths::byte_views(keys@),
                forall|i: int| 0 <= i < r@.len() ==> #[trigger] r@[i] < n,
                place(views, indices(r@), views[n as int]) == place(
                    views,
                    indices(r@).take(at as int),
                    views[n as int],
                ),
            decreases at,
        {
            proof {
                assert(indices(r@).take(at as int).drop_last() =~= indices(r@).take(at - 1));
            }
            at -= 1;
        }
        let ghost was = r@;
        r.insert(at, n);
        proof {
            assert(indices(r@) =~= indices(was).insert(at as int, n as int));
            assert forall|i: int| 0 <= i < r@.len() implies #[trigger] r@[i] < n + 1 by {
                if i < at {
                    assert(r@[i] == was[i]);
                } else if i > at {
                    assert(r@[i] == was[i - 1]);
                }
            }
        }
        n += 1;
    }
    r
}

} // verus!
