//! Ordering by keys: sequences of integers compared lexicographically, and
//! a merge sort that puts positions in key order.

use vstd::prelude::*;

use crate::playlist::{
    lemma_seq_less_irreflexive, lemma_seq_less_total, lemma_seq_less_transitive, seq_less,
};

verus! {

broadcast use vstd::seq_lib::group_to_multiset_ensures;

/// The values of `v` as integers.
pub open spec fn ints(v: Seq<u64>) -> Seq<int> {
    Seq::new(v.len(), |i: int| v[i] as int)
}

/// The key at position `i` of `keys`.
pub open spec fn key_at(keys: Seq<Vec<u64>>, i: usize) -> Seq<int> {
    ints(keys[i as int]@)
}

/// The item at `a` may come before the one at `b`: its key is not larger.
pub open spec fn may_precede(keys: Seq<Vec<u64>>, a: usize, b: usize) -> bool {
    !seq_less(key_at(keys, b), key_at(keys, a))
}

/// Every position in `s` is one of `keys`.
pub open spec fn all_below(s: Seq<usize>, n: nat) -> bool {
    forall|i: int| 0 <= i < s.len() ==> #[trigger] s[i] < n
}

/// `s` lists positions in key order.
pub open spec fn in_key_order(s: Seq<usize>, keys: Seq<Vec<u64>>) -> bool {
    forall|x: int, y: int| 0 <= x < y < s.len() ==> may_precede(keys, #[trigger] s[x], #[trigger] s[y])
}

/// The positions `0..n` in turn.
pub open spec fn positions(n: nat) -> Seq<usize> {
    Seq::new(n, |i: int| i as usize)
}

proof fn lemma_precede_transitive(keys: Seq<Vec<u64>>, a: usize, b: usize, c: usize)
    requires
        may_precede(keys, a, b),
        may_precede(keys, b, c),
    ensures
        may_precede(keys, a, c),
{
    let (ka, kb, kc) = (key_at(keys, a), key_at(keys, b), key_at(keys, c));
    if seq_less(kc, ka) {
        if ka == kb {
            assert(seq_less(kc, kb));
        } else {
            lemma_seq_less_total(ka, kb);
            lemma_seq_less_transitive(kc, ka, kb);
        }
    }
}

proof fn lemma_less_precedes(keys: Seq<Vec<u64>>, a: usize, b: usize)
    requires
        seq_less(key_at(keys, a), key_at(keys, b)),
    ensures
        may_precede(keys, a, b),
{
    if seq_less(key_at(keys, b), key_at(keys, a)) {
        lemma_seq_less_transitive(key_at(keys, a), key_at(keys, b), key_at(keys, a));
        lemma_seq_less_irreflexive(key_at(keys, a));
    }
}

/// Whether key `a` is smaller than key `b`.
pub fn key_less(a: &Vec<u64>, b: &Vec<u64>) -> (r: bool)
    ensures
        r == seq_less(ints(a@), ints(b@)),
{
    let mut i: usize = 0;
    assert(ints(a@).skip(0) =~= ints(a@));
    assert(ints(b@).skip(0) =~= ints(b@));
    while i < a.len() && i < b.len()
        invariant
            i <= a@.len(),
            i <= b@.len(),
            forall|k: int| 0 <= k < i ==> a@[k] == b@[k],
            seq_less(ints(a@), ints(b@)) == seq_less(ints(a@).skip(i as int), ints(b@).skip(i as int)),
        decreases a@.len() - i,
    {
        let (x, y) = (a[i], b[i]);
        assert(ints(a@).skip(i as int)[0] == x as int);
        assert(ints(b@).skip(i as int)[0] == y as int);
        if x != y {
            return x < y;
        }
        assert(ints(a@).skip(i as int).drop_first() =~= ints(a@).skip(i + 1));
        assert(ints(b@).skip(i as int).drop_first() =~= ints(b@).skip(i + 1));
        i = i + 1;
    }
    i < b.len()
}

/// Merges two runs in key order into one.
fn merge(left: Vec<usize>, right: Vec<usize>, keys: &Vec<Vec<u64>>) -> (r: Vec<usize>)
    requires
        all_below(left@, keys@.len()),
        all_below(right@, keys@.len()),
        in_key_order(left@, keys@),
        in_key_order(right@, keys@),
    ensures
        r@.to_multiset() == left@.to_multiset().add(right@.to_multiset()),
        r@.len() == left@.len() + right@.len(),
        all_below(r@, keys@.len()),
        in_key_order(r@, keys@),
{
    broadcast use vstd::seq_lib::lemma_multiset_commutative;

    let mut out: Vec<usize> = Vec::new();
    let mut i: usize = 0;
    let mut j: usize = 0;
    while i < left.len() || j < right.len()
        invariant
            i <= left@.len(),
            j <= right@.len(),
            all_below(left@, keys@.len()),
            all_below(right@, keys@.len()),
            in_key_order(left@, keys@),
            in_key_order(right@, keys@),
            out@.len() == i + j,
            out@.to_multiset() == left@.take(i as int).to_multiset().add(right@.take(j as int).to_multiset()),
            all_below(out@, keys@.len()),
            in_key_order(out@, keys@),
            forall|k: int|
                0 <= k < out@.len() && i < left@.len() ==> may_precede(keys@, #[trigger] out@[k], left@[i as int]),
            forall|k: int|
                0 <= k < out@.len() && j < right@.len() ==> may_precede(keys@, #[trigger] out@[k], right@[j as int]),
        decreases left@.len() + right@.len() - i - j,
    {
        let take_left = if i == left.len() {
            false
        } else if j == right.len() {
            true
        } else {
            !key_less(&keys[right[j]], &keys[left[i]])
        };
        let ghost before = out@;
        if take_left {
            let v = left[i];
            proof {
                assert(left@.take(i + 1) =~= left@.take(i as int).push(v));
                if j < right@.len() {
                    assert(may_precede(keys@, v, right@[j as int]));
                }
                assert forall|k: int| 0 <= k < before.len() + 1 && i + 1 < left@.len() implies may_precede(
                    keys@,
                    #[trigger] before.push(v)[k],
                    left@[i + 1],
                ) by {
                    assert(may_precede(keys@, v, left@[i + 1]));
                    if k < before.len() {
                        lemma_precede_transitive(keys@, before[k], v, left@[i + 1]);
                    }
                }
                assert forall|k: int| 0 <= k < before.len() + 1 && j < right@.len() implies may_precede(
                    keys@,
                    #[trigger] before.push(v)[k],
                    right@[j as int],
                ) by {
                    if k < before.len() {
                        lemma_precede_transitive(keys@, before[k], v, right@[j as int]);
                    }
                }
            }
            out.push(v);
            i = i + 1;
        } else {
            let v = right[j];
            proof {
                assert(right@.take(j + 1) =~= right@.take(j as int).push(v));
                if i < left@.len() {
                    lemma_less_precedes(keys@, v, left@[i as int]);
                }
                assert forall|k: int| 0 <= k < before.len() + 1 && j + 1 < right@.len() implies may_precede(
                    keys@,
                    #[trigger] before.push(v)[k],
                    right@[j + 1],
                ) by {
                    assert(may_precede(keys@, v, right@[j + 1]));
                    if k < before.len() {
                        lemma_precede_transitive(keys@, before[k], v, right@[j + 1]);
                    }
                }
                assert forall|k: int| 0 <= k < before.len() + 1 && i < left@.len() implies may_precede(
                    keys@,
                    #[trigger] before.push(v)[k],
                    left@[i as int],
                ) by {
                    if k < before.len() {
                        lemma_precede_transitive(keys@, before[k], v, left@[i as int]);
                    }
                }
            }
            out.push(v);
            j = j + 1;
        }
    }
    assert(left@.take(left@.len() as int) =~= left@);
    assert(right@.take(right@.len() as int) =~= right@);
    out
}

/// The items of `v` from `from` up to `to`.
fn copy_range(v: &Vec<usize>, from: usize, to: usize) -> (r: Vec<usize>)
    requires
        from <= to <= v@.len(),
    ensures
        r@ == v@.subrange(from as int, to as int),
{
    let mut out: Vec<usize> = Vec::new();
    let mut k: usize = from;
    while k < to
        invariant
            from <= k <= to,
            to <= v@.len(),
            out@ == v@.subrange(from as int, k as int),
        decreases to - k,
    {
        out.push(v[k]);
        k = k + 1;
        assert(out@ =~= v@.subrange(from as int, k as int));
    }
    out
}

/// `items` rearranged into key order (merge sort).
fn sort_positions(items: Vec<usize>, keys: &Vec<Vec<u64>>) -> (r: Vec<usize>)
    requires
        all_below(items@, keys@.len()),
    ensures
        r@.to_multiset() == items@.to_multiset(),
        r@.len() == items@.len(),
        all_below(r@, keys@.len()),
        in_key_order(r@, keys@),
    decreases items@.len(),
{
    broadcast use vstd::seq_lib::lemma_multiset_commutative;

    let n = items.len();
    if n <= 1 {
        return items;
    }
    let mid = n / 2;
    let left = copy_range(&items, 0, mid);
    let right = copy_range(&items, mid, n);
    assert(items@ =~= left@ + right@);
    let left = sort_positions(left, keys);
    let right = sort_positions(right, keys);
    merge(left, right, keys)
}

/// The positions of `keys` in key order: each position once, the smaller
/// key first (equal keys in either order).
pub fn order_by_keys(keys: &Vec<Vec<u64>>) -> (r: Vec<usize>)
    ensures
        r@.to_multiset() == positions(keys@.len()).to_multiset(),
        r@.len() == keys@.len(),
        all_below(r@, keys@.len()),
        in_key_order(r@, keys@),
{
    let mut items: Vec<usize> = Vec::new();
    let mut k: usize = 0;
    while k < keys.len()
        invariant
            k <= keys@.len(),
            items@ == positions(k as nat),
        decreases keys@.len() - k,
    {
        items.push(k);
        k = k + 1;
        assert(items@ =~= positions(k as nat));
    }
    sort_positions(items, keys)
}

} // verus!
