//! Randomness for shuffling and fresh identifiers.

use vstd::prelude::*;

verus! {

broadcast use vstd::seq_lib::group_to_multiset_ensures;

/// Trusted: a fresh 64-bit value from the standard library's randomly
/// keyed hasher (`RandomState`, whose keys are seeded from the operating
/// system and advanced for every new state). Nothing is promised about the
/// value.
#[verifier::external_body]
fn random_u64() -> u64 {
    std::hash::BuildHasher::hash_one(&std::collections::hash_map::RandomState::new(), 0u64)
}

/// Trusted: `slice::swap`, which exchanges two elements.
#[verifier::external_body]
fn swap_items<T>(v: &mut Vec<T>, i: usize, j: usize)
    requires
        i < old(v)@.len(),
        j < old(v)@.len(),
    ensures
        final(v)@ == old(v)@.update(i as int, old(v)@[j as int]).update(j as int, old(v)@[i as int]),
{
    v.as_mut_slice().swap(i, j)
}

/// Whether a draw is kept for a value below `bound`: draws from the
/// biased tail above the last whole multiple of `bound` are rejected.
pub open spec fn accepted_zone(bound: u64) -> int {
    (u64::MAX as int / bound as int) * bound as int
}

/// What one draw gives for a value below `bound`: its remainder, unless
/// the draw falls in the biased tail and is rejected.
pub fn below_from(bound: u64, draw: u64) -> (r: Option<u64>)
    requires
        bound > 0,
    ensures
        r == if draw < accepted_zone(bound) {
            Some((draw % bound) as u64)
        } else {
            None::<u64>
        },
{
    assert((u64::MAX / bound) * bound <= u64::MAX) by (nonlinear_arith)
        requires
            bound > 0,
    ;
    let zone = (u64::MAX / bound) * bound;
    if draw < zone {
        Some(draw % bound)
    } else {
        None
    }
}

/// A random value below `bound` (0 when `bound <= 1`): draws are taken
/// until one is kept ([`below_from`]). Each draw is kept with a chance over
/// one half, so the count of draws, which stops at `u64::MAX` only to give
/// the loop an end (the last draw's remainder is then used), is never
/// reached.
pub fn below(bound: u64) -> (r: u64)
    ensures
        bound <= 1 ==> r == 0,
        bound > 1 ==> r < bound,
{
    if bound <= 1 {
        return 0;
    }
    let mut attempts_left: u64 = u64::MAX;
    let mut value = random_u64();
    while attempts_left > 0
        invariant
            bound > 1,
        decreases attempts_left,
    {
        match below_from(bound, value) {
            Some(r) => return r,
            None => {},
        }
        value = random_u64();
        attempts_left = attempts_left - 1;
    }
    value % bound
}

/// Fills `out` with random bytes.
pub fn random_bytes<const N: usize>(out: &mut [u8; N]) {
    let mut i: usize = 0;
    while i < N
        invariant
            0 <= i <= N,
        decreases N - i,
    {
        let byte = (random_u64() & 255) as u8;
        out[i] = byte;
        i = i + 1;
    }
}

/// `s` with the items at `i` and `j` exchanged.
pub open spec fn swapped<T>(s: Seq<T>, i: int, j: int) -> Seq<T> {
    s.update(i, s[j]).update(j, s[i])
}

/// The picks of a Fisher–Yates shuffle of `len` items: one for each
/// position from the last down to the second, pick `k` (for position
/// `len - 1 - k`) at most that position.
pub open spec fn valid_picks(picks: Seq<usize>, len: nat) -> bool {
    &&& picks.len() == if len > 0 {
        (len - 1) as nat
    } else {
        0
    }
    &&& forall|k: int| 0 <= k < picks.len() ==> #[trigger] picks[k] < len - k
}

/// The arrangement the first picks make of `s`: pick `k` exchanges the
/// item at position `len - 1 - k` with the item at the position picked.
pub open spec fn fisher_yates_spec<T>(s: Seq<T>, picks: Seq<usize>) -> Seq<T>
    decreases picks.len(),
{
    if picks.len() == 0 {
        s
    } else {
        let k = picks.len() - 1;
        swapped(fisher_yates_spec(s, picks.drop_last()), s.len() - 1 - k, picks.last() as int)
    }
}

/// Arranges `v` by the given picks, as [`fisher_yates_spec`] says; the
/// items stay the same, each as often as before.
pub fn fisher_yates<T>(v: &mut Vec<T>, picks: &[usize])
    requires
        valid_picks(picks@, old(v)@.len()),
    ensures
        final(v)@ == fisher_yates_spec(old(v)@, picks@),
        final(v)@.len() == old(v)@.len(),
        final(v)@.to_multiset() == old(v)@.to_multiset(),
{
    let len = v.len();
    let mut k: usize = 0;
    while k < picks.len()
        invariant
            valid_picks(picks@, old(v)@.len()),
            len == old(v)@.len(),
            v@.len() == len,
            k <= picks@.len(),
            v@ == fisher_yates_spec(old(v)@, picks@.take(k as int)),
            v@.to_multiset() == old(v)@.to_multiset(),
        decreases picks@.len() - k,
    {
        let i = len - 1 - k;
        let j = picks[k];
        proof {
            assert(picks@.take(k + 1).drop_last() =~= picks@.take(k as int));
            assert(picks@.take(k + 1).last() == j);
            let s = v@;
            vstd::seq_lib::to_multiset_update(s, i as int, s[j as int]);
            vstd::seq_lib::to_multiset_update(s.update(i as int, s[j as int]), j as int, s[i as int]);
            broadcast use vstd::multiset::group_multiset_properties;

            assert(s.update(i as int, s[j as int]).update(j as int, s[i as int]).to_multiset()
                =~= s.to_multiset());
        }
        swap_items(v, i, j);
        k = k + 1;
    }
    assert(picks@.take(picks@.len() as int) =~= picks@);
}

/// Random picks for a Fisher–Yates shuffle of `len` items.
pub fn draw_picks(len: usize) -> (r: Vec<usize>)
    ensures
        valid_picks(r@, len as nat),
{
    let mut picks: Vec<usize> = Vec::new();
    if len == 0 {
        return picks;
    }
    let mut k: usize = 0;
    while k < len - 1
        invariant
            len > 0,
            k <= len - 1,
            picks@.len() == k,
            forall|q: int| 0 <= q < k ==> #[trigger] picks@[q] < len - q,
        decreases len - 1 - k,
    {
        let pick = below((len - k) as u64) as usize;
        picks.push(pick);
        k = k + 1;
    }
    picks
}

/// A uniformly random permutation: the arrangement some valid picks make
/// (see [`fisher_yates_spec`]), the picks drawn at random.
pub fn shuffle<T>(v: &mut Vec<T>)
    ensures
        exists|picks: Seq<usize>|
            valid_picks(picks, old(v)@.len()) && final(v)@ == fisher_yates_spec(old(v)@, picks),
        final(v)@.len() == old(v)@.len(),
        final(v)@.to_multiset() == old(v)@.to_multiset(),
{
    let picks = draw_picks(v.len());
    fisher_yates(v, picks.as_slice());
}

} // verus!
