//! Shuffling a playlist: Fisher-Yates driven by a splitmix64 generator
//! seeded by the caller. A shuffled playlist needs no more than an order
//! the viewer cannot predict, and that does not justify a randomness crate.
use vstd::prelude::*;
use crate::sorting::{identity, is_permutation, rearranged};

verus! {

/// The step the generator's state takes per draw.
pub const GOLDEN_GAMMA: u64 = 0x9E37_79B9_7F4A_7C15;

/// The generator's state after `draws` draws from `seed`.
pub open spec fn state_after(seed: u64, draws: nat) -> u64
    decreases draws,
{
    if draws == 0 {
        seed
    } else {
        state_after(seed, (draws - 1) as nat).wrapping_add(GOLDEN_GAMMA)
    }
}

/// splitmix64's output for a state.
pub open spec fn mix(z: u64) -> u64 {
    let a = (z ^ (z >> 30u64)).wrapping_mul(0xBF58_476D_1CE4_E5B9);
    let b = (a ^ (a >> 27u64)).wrapping_mul(0x94D0_49BB_1331_11EB);
    b ^ (b >> 31u64)
}

/// splitmix64's output for a state.
fn mix_of(z: u64) -> (r: u64)
    ensures
        r == mix(z),
{
    let a = (z ^ (z >> 30u64)).wrapping_mul(0xBF58_476D_1CE4_E5B9);
    let b = (a ^ (a >> 27u64)).wrapping_mul(0x94D0_49BB_1331_11EB);
    b ^ (b >> 31u64)
}

/// `s` with the items at `i` and `j` swapped.
pub open spec fn swapped<T>(s: Seq<T>, i: int, j: int) -> Seq<T> {
    s.update(i, s[j]).update(j, s[i])
}

/// The Fisher-Yates pass from position `index` down to 1, `draws` draws
/// already taken: each position trades places with one at or before it,
/// picked by the next draw.
pub open spec fn shuffled_from<T>(s: Seq<T>, seed: u64, index: int, draws: nat) -> Seq<T>
    decreases index,
{
    if index < 1 {
        s
    } else {
        let pick = (mix(state_after(seed, draws + 1)) % ((index + 1) as u64)) as int;
        shuffled_from(swapped(s, index, pick), seed, index - 1, draws + 1)
    }
}

/// `ids` shuffled from `seed`.
pub open spec fn shuffled_with<T>(ids: Seq<T>, seed: u64) -> Seq<T> {
    shuffled_from(ids, seed, ids.len() - 1, 0)
}

/// `ids` in an order drawn from `seed`.
pub fn shuffled(ids: Vec<String>, seed: u64) -> (r: Vec<String>)
    ensures
        r@ == shuffled_with(ids@, seed),
{
    let mut ids = ids;
    let ghost initial = ids@;
    if ids.len() < 2 {
        return ids;
    }
    let n = ids.len();
    let mut state = seed;
    let mut index: usize = n - 1;
    let ghost mut draws: nat = 0;
    while index >= 1
        invariant
            ids@.len() == initial.len() == n,
            index < ids@.len(),
            state == state_after(seed, draws),
            shuffled_with(initial, seed) == shuffled_from(ids@, seed, index as int, draws),
        decreases index,
    {
        state = state.wrapping_add(GOLDEN_GAMMA);
        let z = mix_of(state);
        let span = (index + 1) as u64;
        let pick = (z % span) as usize;
        let ghost before = ids@;
        let a = ids[index].clone();
        let b = ids[pick].clone();
        ids.set(index, b);
        ids.set(pick, a);
        proof {
            assert(ids@ =~= swapped(before, index as int, pick as int));
            draws = draws + 1;
        }
        index = index - 1;
    }
    ids
}


/// Swapping two places of a permutation leaves a permutation.
proof fn lemma_swapped_permutation(p: Seq<int>, n: int, i: int, j: int)
    requires
        is_permutation(p, n),
        0 <= i < n,
        0 <= j < n,
    ensures
        is_permutation(swapped(p, i, j), n),
{
    let q = swapped(p, i, j);
    assert forall|a: int, b: int| 0 <= a < b < n implies #[trigger] q[a] != #[trigger] q[b] by {
        let pa = if a == j { p[i] } else if a == i { p[j] } else { p[a] };
        let pb = if b == j { p[i] } else if b == i { p[j] } else { p[b] };
        assert(q[a] == pa);
        assert(q[b] == pb);
    }
}

/// Shuffling items laid out by a permutation lays them out by the same
/// permutation shuffled.
proof fn lemma_shuffle_of_rearranged<T>(items: Seq<T>, p: Seq<int>, seed: u64, index: int, draws: nat)
    requires
        is_permutation(p, items.len() as int),
        index < items.len() <= u64::MAX,
    ensures
        is_permutation(shuffled_from(p, seed, index, draws), items.len() as int),
        shuffled_from(rearranged(items, p), seed, index, draws) == rearranged(
            items,
            shuffled_from(p, seed, index, draws),
        ),
    decreases index,
{
    if index >= 1 {
        let n = items.len() as int;
        let pick = (mix(state_after(seed, draws + 1)) % ((index + 1) as u64)) as int;
        let span = (index + 1) as u64;
        assert(span as int == index + 1);
        assert(0 <= pick <= index);
        lemma_swapped_permutation(p, n, index, pick);
        assert(swapped(rearranged(items, p), index, pick) =~= rearranged(items, swapped(p, index, pick)));
        lemma_shuffle_of_rearranged(items, swapped(p, index, pick), seed, index - 1, draws + 1);
    }
}

/// A shuffle loses and repeats nothing: the result is the same ids in an
/// order a permutation gives.
pub proof fn law_shuffle_keeps_every_id<T>(ids: Seq<T>, seed: u64)
    requires
        ids.len() <= u64::MAX,
    ensures
        exists|p: Seq<int>|
            is_permutation(p, ids.len() as int) && #[trigger] rearranged(ids, p) == shuffled_with(ids, seed),
{
    let n = ids.len() as int;
    let id = identity(n);
    assert(is_permutation(id, n));
    assert(rearranged(ids, id) =~= ids);
    lemma_shuffle_of_rearranged(ids, id, seed, n - 1, 0);
    let p = shuffled_from(id, seed, n - 1, 0);
    assert(rearranged(ids, p) == shuffled_with(ids, seed));
}

} // verus!
