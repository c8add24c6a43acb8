//! Stable ordering of a list by a key computed once per item.
//!
//! This is what `slice::sort_by_key` and `slice::sort_by_cached_key` do: a
//! stable sort, so items with equal keys keep the order they came in. The
//! result is stated as a permutation of the input in which the pairs
//! (key, initial position) strictly increase; there is exactly one such
//! permutation.
use vstd::prelude::*;
use vstd::set_lib::{lemma_int_range, lemma_len_subset, lemma_subset_equality, set_int_range};

verus! {

/// What a list is ordered by: a number (a timestamp, a length) or a text
/// compared character by character, as `String`'s order compares it.
pub enum SortKey {
    Number(i128),
    Text(Vec<char>),
}

/// What a key stands for.
pub enum KeyView {
    Number(int),
    Text(Seq<char>),
}

impl SortKey {
    pub open spec fn view(&self) -> KeyView {
        match self {
            SortKey::Number(x) => KeyView::Number(*x as int),
            SortKey::Text(t) => KeyView::Text(t@),
        }
    }
}

/// Lexicographic order on character sequences: by the first character
/// that differs, a proper prefix first.
pub open spec fn text_lt(a: Seq<char>, b: Seq<char>) -> bool
    decreases a.len(),
{
    if a.len() == 0 {
        b.len() > 0
    } else if b.len() == 0 {
        false
    } else if a[0] != b[0] {
        a[0] < b[0]
    } else {
        text_lt(a.drop_first(), b.drop_first())
    }
}

/// The strict order on keys. A number sorts before a text; the lists this
/// crate sorts never mix the two.
pub open spec fn key_lt(a: KeyView, b: KeyView) -> bool {
    match (a, b) {
        (KeyView::Number(x), KeyView::Number(y)) => x < y,
        (KeyView::Text(x), KeyView::Text(y)) => text_lt(x, y),
        (KeyView::Number(_), KeyView::Text(_)) => true,
        (KeyView::Text(_), KeyView::Number(_)) => false,
    }
}

/// Whether item `x` comes before item `y` in a stable sort by `keys`.
pub open spec fn before(keys: Seq<KeyView>, x: int, y: int) -> bool {
    key_lt(keys[x], keys[y]) || (!key_lt(keys[y], keys[x]) && x < y)
}

/// Whether `p` lists each of `0..n` exactly once.
pub open spec fn is_permutation(p: Seq<int>, n: int) -> bool {
    &&& p.len() == n
    &&& forall|a: int| 0 <= a < n ==> 0 <= #[trigger] p[a] < n
    &&& forall|a: int, b: int| 0 <= a < b < n ==> #[trigger] p[a] != #[trigger] p[b]
}

/// Whether `p` is the stable order of items by `keys`.
pub open spec fn stably_sorted(keys: Seq<KeyView>, p: Seq<int>) -> bool {
    forall|a: int, b: int| 0 <= a < b < p.len() ==> before(keys, #[trigger] p[a], #[trigger] p[b])
}

/// `items` rearranged by `p`: item `a` of the result is `items[p[a]]`.
pub open spec fn rearranged<T>(items: Seq<T>, p: Seq<int>) -> Seq<T> {
    p.map_values(|i: int| items[i])
}

/// Whether `result` is `items` in the stable order of `keys`.
pub open spec fn is_stable_sort<T>(items: Seq<T>, keys: Seq<KeyView>, result: Seq<T>) -> bool {
    exists|p: Seq<int>|
        is_permutation(p, items.len() as int) && stably_sorted(keys, p) && result == rearranged(
            items,
            p,
        )
}

pub proof fn lemma_text_lt_irreflexive(a: Seq<char>)
    ensures
        !text_lt(a, a),
    decreases a.len(),
{
    if a.len() > 0 {
        lemma_text_lt_irreflexive(a.drop_first());
    }
}

pub proof fn lemma_text_lt_transitive(a: Seq<char>, b: Seq<char>, c: Seq<char>)
    requires
        text_lt(a, b),
        text_lt(b, c),
    ensures
        text_lt(a, c),
    decreases a.len(),
{
    if a.len() > 0 && b.len() > 0 && c.len() > 0 {
        if a[0] == b[0] && b[0] == c[0] {
            lemma_text_lt_transitive(a.drop_first(), b.drop_first(), c.drop_first());
        }
    }
}

pub proof fn lemma_text_lt_total(a: Seq<char>, b: Seq<char>)
    requires
        a != b,
    ensures
        text_lt(a, b) || text_lt(b, a),
    decreases a.len(),
{
    if a.len() > 0 && b.len() > 0 && a[0] == b[0] {
        if a.drop_first() == b.drop_first() {
            assert(a =~= seq![a[0]] + a.drop_first());
            assert(b =~= seq![b[0]] + b.drop_first());
        }
        lemma_text_lt_total(a.drop_first(), b.drop_first());
    } else if a.len() == 0 && b.len() == 0 {
        assert(a =~= b);
    }
}

/// `key_lt` is a strict weak order: not `y < x` and not `z < y` give not
/// `z < x`.
pub proof fn lemma_key_not_lt_transitive(x: KeyView, y: KeyView, z: KeyView)
    requires
        !key_lt(y, x),
        !key_lt(z, y),
    ensures
        !key_lt(z, x),
{
    match (x, y, z) {
        (KeyView::Text(a), KeyView::Text(b), KeyView::Text(c)) => {
            if text_lt(c, a) && a != b && b != c {
                lemma_text_lt_total(a, b);
                lemma_text_lt_total(b, c);
                lemma_text_lt_transitive(a, b, c);
                lemma_text_lt_transitive(a, c, a);
                lemma_text_lt_irreflexive(a);
            }
        },
        _ => {},
    }
}

pub proof fn lemma_key_lt_asymmetric(x: KeyView, y: KeyView)
    requires
        key_lt(x, y),
    ensures
        !key_lt(y, x),
{
    match (x, y) {
        (KeyView::Text(a), KeyView::Text(b)) => {
            if text_lt(b, a) {
                lemma_text_lt_transitive(a, b, a);
                lemma_text_lt_irreflexive(a);
            }
        },
        _ => {},
    }
}

/// Of two different items, at most one comes before the other.
pub proof fn lemma_before_asymmetric(keys: Seq<KeyView>, x: int, y: int)
    requires
        x != y,
        before(keys, x, y),
    ensures
        !before(keys, y, x),
{
    if key_lt(keys[x], keys[y]) {
        lemma_key_lt_asymmetric(keys[x], keys[y]);
    }
}

/// A permutation of `0..n` lists every one of `0..n` somewhere.
pub proof fn lemma_permutation_onto(p: Seq<int>, n: int, x: int)
    requires
        is_permutation(p, n),
        0 <= x < n,
    ensures
        exists|a: int| 0 <= a < n && p[a] == x,
{
    assert(p.no_duplicates()) by {
        assert forall|a: int, b: int|
            0 <= a < p.len() && 0 <= b < p.len() && a != b implies p[a] != p[b] by {
            if a < b {
                assert(p[a] != p[b]);
            } else {
                assert(p[b] != p[a]);
            }
        }
    }
    p.unique_seq_to_set();
    lemma_int_range(0, n);
    assert(p.to_set().subset_of(set_int_range(0, n))) by {
        assert forall|v: int| p.to_set().contains(v) implies set_int_range(0, n).contains(v) by {
            assert(p.contains(v));
            let a = choose|a: int| 0 <= a < p.len() && p[a] == v;
            assert(0 <= p[a] < n);
        }
    }
    lemma_len_subset(p.to_set(), set_int_range(0, n));
    lemma_subset_equality(p.to_set(), set_int_range(0, n));
    assert(set_int_range(0, n).contains(x));
    assert(p.to_set().contains(x));
    assert(p.contains(x));
}

/// Two stable orders of the same keys agree on their first `k` places.
proof fn lemma_stable_orders_agree_upto(keys: Seq<KeyView>, p: Seq<int>, q: Seq<int>, n: int, k: int)
    requires
        is_permutation(p, n),
        is_permutation(q, n),
        stably_sorted(keys, p),
        stably_sorted(keys, q),
        0 <= k <= n,
    ensures
        forall|a: int| 0 <= a < k ==> p[a] == q[a],
    decreases k,
{
    if k > 0 {
        lemma_stable_orders_agree_upto(keys, p, q, n, k - 1);
        let j = k - 1;
        if p[j] != q[j] {
            lemma_permutation_onto(p, n, q[j]);
            let b = choose|b: int| 0 <= b < n && p[b] == q[j];
            lemma_permutation_onto(q, n, p[j]);
            let c = choose|c: int| 0 <= c < n && q[c] == p[j];
            if b < j {
                assert(p[b] == q[b]);
                assert(q[b] != q[j]);
            }
            if c < j {
                assert(q[c] == p[c]);
                assert(p[c] != p[j]);
            }
            assert(before(keys, p[j], p[b]));
            assert(before(keys, q[j], q[c]));
            lemma_before_asymmetric(keys, p[j], q[j]);
        }
    }
}

/// There is exactly one stable order of a list by its keys.
pub proof fn lemma_stable_sort_unique<T>(
    items: Seq<T>,
    keys: Seq<KeyView>,
    first: Seq<T>,
    second: Seq<T>,
)
    requires
        is_stable_sort(items, keys, first),
        is_stable_sort(items, keys, second),
    ensures
        first == second,
{
    let n = items.len() as int;
    let p = choose|p: Seq<int>|
        is_permutation(p, n) && stably_sorted(keys, p) && first == rearranged(items, p);
    let q = choose|q: Seq<int>|
        is_permutation(q, n) && stably_sorted(keys, q) && second == rearranged(items, q);
    lemma_stable_orders_agree_upto(keys, p, q, n, n);
    assert(p =~= q);
}

/// Whether text `a` sorts strictly before text `b`.
pub fn text_less(a: &Vec<char>, b: &Vec<char>) -> (r: bool)
    ensures
        r == text_lt(a@, b@),
{
    let mut i: usize = 0;
    assert(a@.skip(0) =~= a@);
    assert(b@.skip(0) =~= b@);
    while i < a.len() && i < b.len()
        invariant
            i <= a.len(),
            i <= b.len(),
            text_lt(a@, b@) == text_lt(a@.skip(i as int), b@.skip(i as int)),
        decreases a.len() - i,
    {
        assert(a@.skip(i as int).drop_first() =~= a@.skip(i + 1));
        assert(b@.skip(i as int).drop_first() =~= b@.skip(i + 1));
        if a[i] != b[i] {
            return a[i] < b[i];
        }
        i = i + 1;
    }
    i == a.len() && i < b.len()
}

/// Whether key `a` sorts strictly before key `b`.
pub fn key_less(a: &SortKey, b: &SortKey) -> (r: bool)
    ensures
        r == key_lt(a.view(), b.view()),
{
    match (a, b) {
        (SortKey::Number(x), SortKey::Number(y)) => *x < *y,
        (SortKey::Text(x), SortKey::Text(y)) => text_less(x, y),
        (SortKey::Number(_), SortKey::Text(_)) => true,
        (SortKey::Text(_), SortKey::Number(_)) => false,
    }
}

/// The identity arrangement of `n` items.
pub open spec fn identity(n: int) -> Seq<int> {
    Seq::new(n as nat, |i: int| i)
}

/// Sorts `items` stably by `keys`, key `k` belonging to item `k`.
pub fn stable_sort_by_keys<T>(items: &mut Vec<T>, keys: Vec<SortKey>)
    requires
        old(items)@.len() == keys@.len(),
    ensures
        is_stable_sort(old(items)@, keys@.map_values(|k: SortKey| k.view()), final(items)@),
{
    let ghost initial = items@;
    let ghost all_keys = keys@.map_values(|k: SortKey| k.view());
    let n = items.len();
    let mut ks = keys;
    let ghost mut perm: Seq<int> = identity(n as int);
    assert(items@ =~= rearranged(initial, perm));
    assert(ks@.map_values(|k: SortKey| k.view()) =~= rearranged(all_keys, perm));
    let mut i: usize = 0;
    while i < n
        invariant
            n == initial.len() == all_keys.len(),
            items@.len() == n,
            ks@.len() == n,
            i <= n,
            perm.len() == n,
            is_permutation(perm, n as int),
            forall|t: int| i <= t < n ==> #[trigger] perm[t] == t,
            forall|t: int| 0 <= t < i ==> #[trigger] perm[t] < i,
            items@ == rearranged(initial, perm),
            ks@.map_values(|k: SortKey| k.view()) == rearranged(all_keys, perm),
            forall|a: int, b: int|
                0 <= a < b < i ==> before(all_keys, #[trigger] perm[a], #[trigger] perm[b]),
        decreases n - i,
    {
        let mut j = i;
        while j > 0 && key_less(&ks[i], &ks[j - 1])
            invariant
                0 <= j <= i < n,
                ks@.len() == n,
                ks@.map_values(|k: SortKey| k.view()) == rearranged(all_keys, perm),
                perm.len() == n,
                perm[i as int] == i,
                forall|t: int| j <= t < i ==> key_lt(all_keys[i as int], all_keys[#[trigger] perm[t]]),
            decreases j,
        {
            proof {
                let kv = ks@.map_values(|k: SortKey| k.view());
                assert(kv[j - 1] == ks@[j - 1].view());
                assert(kv[i as int] == ks@[i as int].view());
            }
            j = j - 1;
        }
        proof {
            let kv = ks@.map_values(|k: SortKey| k.view());
            assert(kv[i as int] == ks@[i as int].view());
            if j > 0 {
                assert(kv[j - 1] == ks@[j - 1].view());
            }
        }
        let ghost old_perm = perm;
        proof {
            let x = i as int;
            let jj = j as int;
            perm = old_perm.take(jj) + seq![x] + old_perm.subrange(jj, x) + old_perm.skip(x + 1);
            assert(perm.len() == n);
            assert forall|t: int| 0 <= t < jj implies #[trigger] perm[t] == old_perm[t] by {}
            assert forall|t: int| jj < t <= x implies #[trigger] perm[t] == old_perm[t - 1] by {}
            assert forall|t: int| x < t < n implies #[trigger] perm[t] == old_perm[t] by {}
            assert(perm[jj] == x);
            // What was placed before the new item orders before it.
            if jj > 0 {
                assert(!key_lt(all_keys[x], all_keys[old_perm[jj - 1]]));
            }
            assert forall|a: int| 0 <= a < jj implies !key_lt(
                all_keys[x],
                all_keys[#[trigger] old_perm[a]],
            ) by {
                if a < jj - 1 {
                    assert(before(all_keys, old_perm[a], old_perm[jj - 1]));
                    if key_lt(all_keys[old_perm[a]], all_keys[old_perm[jj - 1]]) {
                        lemma_key_lt_asymmetric(
                            all_keys[old_perm[a]],
                            all_keys[old_perm[jj - 1]],
                        );
                    }
                    lemma_key_not_lt_transitive(
                        all_keys[old_perm[a]],
                        all_keys[old_perm[jj - 1]],
                        all_keys[x],
                    );
                }
            }
            assert forall|a: int, b: int| 0 <= a < b < x + 1 implies before(
                all_keys,
                #[trigger] perm[a],
                #[trigger] perm[b],
            ) by {
                if b == jj {
                    assert(perm[a] == old_perm[a]);
                    assert(old_perm[a] < x);
                } else if a == jj {
                    assert(perm[b] == old_perm[b - 1]);
                    assert(key_lt(all_keys[x], all_keys[old_perm[b - 1]]));
                } else {
                    let pa = if a < jj {
                        a
                    } else {
                        a - 1
                    };
                    let pb = if b < jj {
                        b
                    } else {
                        b - 1
                    };
                    assert(perm[a] == old_perm[pa]);
                    assert(perm[b] == old_perm[pb]);
                    assert(before(all_keys, old_perm[pa], old_perm[pb]));
                }
            }
            assert forall|a: int, b: int| 0 <= a < b < n implies #[trigger] perm[a]
                != #[trigger] perm[b] by {
                let pa = if a < jj {
                    a
                } else if a == jj {
                    x
                } else if a <= x {
                    a - 1
                } else {
                    a
                };
                let pb = if b < jj {
                    b
                } else if b == jj {
                    x
                } else if b <= x {
                    b - 1
                } else {
                    b
                };
                if a == jj {
                    assert(perm[b] == old_perm[pb]);
                    assert(pb != x);
                } else if b == jj {
                    assert(perm[a] == old_perm[pa]);
                    assert(pa != x);
                } else {
                    assert(perm[a] == old_perm[pa]);
                    assert(perm[b] == old_perm[pb]);
                    assert(pa < pb);
                }
            }
        }
        let item = items.remove(i);
        items.insert(j, item);
        let ghost kv_before = ks@;
        let key = ks.remove(i);
        ks.insert(j, key);
        assert(items@ =~= rearranged(initial, perm));
        proof {
            let target = rearranged(all_keys, perm);
            let before_view = kv_before.map_values(|k: SortKey| k.view());
            assert forall|t: int| 0 <= t < n implies #[trigger] ks@[t].view() == target[t] by {
                if t < j {
                    assert(ks@[t] == kv_before[t]);
                    assert(before_view[t] == kv_before[t].view());
                } else if t == j {
                    assert(ks@[t] == kv_before[i as int]);
                    assert(before_view[i as int] == kv_before[i as int].view());
                } else if t <= i {
                    assert(ks@[t] == kv_before[t - 1]);
                    assert(before_view[t - 1] == kv_before[t - 1].view());
                } else {
                    assert(ks@[t] == kv_before[t]);
                    assert(before_view[t] == kv_before[t].view());
                }
            }
        }
        assert(ks@.map_values(|k: SortKey| k.view()) =~= rearranged(all_keys, perm));
        i = i + 1;
    }
    assert(stably_sorted(all_keys, perm));
}

/// The items of `items` in the opposite order.
pub fn reverse_in_place<T>(items: &mut Vec<T>)
    ensures
        final(items)@ == old(items)@.reverse(),
{
    let ghost initial = items@;
    let mut out: Vec<T> = Vec::new();
    while items.len() > 0
        invariant
            items@.len() + out@.len() == initial.len(),
            items@ == initial.take(items@.len() as int),
            out@ == initial.skip(items@.len() as int).reverse(),
        decreases items@.len(),
    {
        let ghost k = items@.len();
        let x = items.pop().unwrap();
        proof {
            assert(initial.skip(k - 1).reverse() =~= initial.skip(k as int).reverse().push(
                initial[k - 1],
            ));
        }
        out.push(x);
        assert(items@ =~= initial.take(k - 1));
    }
    assert(initial.skip(0) =~= initial);
    *items = out;
}

} // verus!
