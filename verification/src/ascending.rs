//! Sequences of frame indices in ascending order, and the one such sequence
//! that lists a given set of indices.

use vstd::prelude::*;
use vstd::std_specs::btree::increasing_seq;
use vstd::std_specs::cmp::OrdSpec;

verus! {

/// Every element is smaller than all that follow it.
pub open spec fn strictly_ascending(s: Seq<u32>) -> bool {
    forall|i: int, j: int| 0 <= i < j < s.len() ==> s[i] < s[j]
}

/// Some element occurs at two places.
pub open spec fn has_duplicates(s: Seq<u32>) -> bool {
    exists|i: int, j: int| 0 <= i < j < s.len() && s[i] == s[j]
}

/// The members of `keys` that are smaller than `bound`, smallest first.
pub open spec fn keys_below(keys: Set<u32>, bound: nat) -> Seq<u32>
    decreases bound,
{
    if bound == 0 {
        Seq::empty()
    } else {
        let rest = keys_below(keys, (bound - 1) as nat);
        if bound - 1 <= u32::MAX && keys.contains((bound - 1) as u32) {
            rest.push((bound - 1) as u32)
        } else {
            rest
        }
    }
}

/// All members of `keys`, smallest first.
pub open spec fn ascending_keys(keys: Set<u32>) -> Seq<u32> {
    keys_below(keys, 0x1_0000_0000)
}

/// `keys_below` lists exactly the members below the bound, in ascending
/// order.
pub proof fn lemma_keys_below(keys: Set<u32>, bound: nat)
    ensures
        strictly_ascending(keys_below(keys, bound)),
        forall|k: u32|
            #![trigger keys_below(keys, bound).contains(k)]
            #![trigger keys.contains(k)]
            keys_below(keys, bound).contains(k) <==> keys.contains(k) && k < bound,
    decreases bound,
{
    if bound > 0 {
        let rest = keys_below(keys, (bound - 1) as nat);
        lemma_keys_below(keys, (bound - 1) as nat);
        let all = keys_below(keys, bound);
        if bound - 1 <= u32::MAX && keys.contains((bound - 1) as u32) {
            let top = (bound - 1) as u32;
            assert(all == rest.push(top));
            assert forall|i: int, j: int| 0 <= i < j < all.len() implies all[i] < all[j] by {
                if j < rest.len() {
                    assert(rest[i] < rest[j]);
                } else {
                    assert(rest.contains(rest[i]));
                }
            }
            assert forall|k: u32| all.contains(k) <==> keys.contains(k) && k < bound by {
                if all.contains(k) {
                    let i = choose|i: int| 0 <= i < all.len() && all[i] == k;
                    if i < rest.len() {
                        assert(rest.contains(rest[i]));
                    }
                }
                if keys.contains(k) && k < bound {
                    if k == top {
                        assert(all[rest.len() as int] == k);
                    } else {
                        assert(rest.contains(k));
                        let i = choose|i: int| 0 <= i < rest.len() && rest[i] == k;
                        assert(all[i] == k);
                    }
                }
            }
        } else {
            assert(all == rest);
            assert forall|k: u32| all.contains(k) <==> keys.contains(k) && k < bound by {
            }
        }
    }
}

/// Where no member lies from `low` up to `high`, the listing below `high` is
/// the listing below `low`.
pub proof fn lemma_keys_below_gap(keys: Set<u32>, low: nat, high: nat)
    requires
        low <= high,
        forall|k: u32| low <= k < high ==> !keys.contains(k),
    ensures
        keys_below(keys, high) == keys_below(keys, low),
    decreases high,
{
    if low < high {
        lemma_keys_below_gap(keys, low, (high - 1) as nat);
    }
}

/// A strictly ascending sequence is the ascending listing of its own
/// elements: there is only one way to list a set in ascending order.
pub proof fn lemma_ascending_is_unique(keys: Set<u32>, s: Seq<u32>)
    requires
        strictly_ascending(s),
        forall|k: u32| s.contains(k) <==> keys.contains(k),
    ensures
        s == ascending_keys(keys),
{
    lemma_prefix_is_keys_below(keys, s, s.len());
    assert(s.take(s.len() as int) == s);
    if s.len() > 0 {
        let top = s.last();
        assert forall|k: u32| top < k implies !keys.contains(k) by {
            if keys.contains(k) {
                assert(s.contains(k));
                let i = choose|i: int| 0 <= i < s.len() && s[i] == k;
                assert(i < s.len() - 1 ==> s[i] < s[s.len() - 1]);
            }
        }
        lemma_keys_below_gap(keys, (top + 1) as nat, 0x1_0000_0000);
    } else {
        assert forall|k: u32| !keys.contains(k) by {
            assert(!s.contains(k));
        }
        lemma_keys_below_gap(keys, 0, 0x1_0000_0000);
    }
}

/// The bound just above the first `n` elements of an ascending sequence.
pub open spec fn bound_after(s: Seq<u32>, n: nat) -> nat {
    if n == 0 {
        0
    } else {
        (s[n - 1] + 1) as nat
    }
}

/// The first `n` elements of an ascending listing of `keys` are the members
/// of `keys` below the bound that follows them.
pub proof fn lemma_prefix_is_keys_below(keys: Set<u32>, s: Seq<u32>, n: nat)
    requires
        n <= s.len(),
        strictly_ascending(s),
        forall|k: u32| s.contains(k) <==> keys.contains(k),
    ensures
        s.take(n as int) == keys_below(keys, bound_after(s, n)),
    decreases n,
{
    if n == 0 {
        assert(s.take(0) =~= Seq::<u32>::empty());
    } else {
        let m = (n - 1) as nat;
        lemma_prefix_is_keys_below(keys, s, m);
        let key = s[n - 1];
        assert(s.contains(key));
        assert forall|k: u32| bound_after(s, m) <= k < key implies !keys.contains(k) by {
            if keys.contains(k) {
                assert(s.contains(k));
                let i = choose|i: int| 0 <= i < s.len() && s[i] == k;
                if i < n - 1 {
                    assert(m > 0);
                    assert(i < m - 1 ==> s[i] < s[m - 1]);
                } else if i > n - 1 {
                    assert(s[n - 1] < s[i]);
                }
            }
        }
        lemma_keys_below_gap(keys, bound_after(s, m), key as nat);
        assert(s.take(n as int) =~= s.take(m as int).push(key));
    }
}

/// A sequence ascends up to and including place `n` exactly when it ascends
/// before `n` and the element at `n` is greater than the one before it.
pub proof fn lemma_ascending_step(s: Seq<u32>, n: int)
    requires
        0 <= n < s.len(),
    ensures
        strictly_ascending(s.take(n + 1)) <==> strictly_ascending(s.take(n)) && (n > 0 ==> s[n - 1]
            < s[n]),
{
    let front = s.take(n);
    let upto = s.take(n + 1);
    if strictly_ascending(upto) {
        assert forall|i: int, j: int| 0 <= i < j < front.len() implies front[i] < front[j] by {
            assert(upto[i] < upto[j]);
        }
        if n > 0 {
            assert(upto[n - 1] < upto[n]);
        }
    }
    if strictly_ascending(front) && (n > 0 ==> s[n - 1] < s[n]) {
        assert forall|i: int, j: int| 0 <= i < j < upto.len() implies upto[i] < upto[j] by {
            if j < n {
                assert(front[i] < front[j]);
            } else if i < n - 1 {
                assert(front[i] < front[n - 1]);
            }
        }
    }
}

/// A sequence that does not ascend up to some place does not ascend as a
/// whole, and one with a duplicate up to some place has a duplicate.
pub proof fn lemma_prefix_faults(s: Seq<u32>, n: int)
    requires
        0 <= n <= s.len(),
    ensures
        !strictly_ascending(s.take(n)) ==> !strictly_ascending(s),
        has_duplicates(s.take(n)) ==> has_duplicates(s),
{
    let front = s.take(n);
    if !strictly_ascending(front) && strictly_ascending(s) {
        assert forall|i: int, j: int| 0 <= i < j < front.len() implies front[i] < front[j] by {
            assert(s[i] < s[j]);
        }
    }
    if has_duplicates(front) {
        let (i, j) = choose|i: int, j: int| 0 <= i < j < front.len() && front[i] == front[j];
        assert(s[i] == s[j]);
    }
}

/// The frame indices of a run of borrowed map entries.
pub open spec fn borrowed_keys<K>(entries: Seq<(&u32, &K)>) -> Seq<u32> {
    entries.map_values(|kv: (&u32, &K)| *kv.0)
}

/// A sequence that the standard ordered map calls increasing is strictly
/// ascending in the order of the integers.
pub proof fn lemma_increasing_is_ascending(s: Seq<u32>)
    requires
        increasing_seq(s),
    ensures
        strictly_ascending(s),
{
    vstd::std_specs::btree::axiom_increasing_seq_meaning::<u32>(s);
    assert forall|i: int, j: int| 0 <= i < j < s.len() implies s[i] < s[j] by {
        assert(s[i].cmp_spec(&s[j]) is Less);
    }
}

/// Walking an ordered map visits its keys in their ascending listing.
pub proof fn lemma_iteration_order<K>(m: Map<u32, K>, entries: Seq<(&u32, &K)>)
    requires
        increasing_seq(entries.map_values(|kv: (&u32, &K)| *kv.0)),
        forall|i: int| 0 <= i < entries.len() ==> m.contains_key(*(#[trigger] entries[i]).0),
        forall|k: u32| #[trigger] m.contains_key(k) ==> entries.contains((&k, &m[k])),
    ensures
        borrowed_keys(entries) == ascending_keys(m.dom()),
{
    let keys = borrowed_keys(entries);
    lemma_increasing_is_ascending(keys);
    assert forall|k: u32| keys.contains(k) <==> m.dom().contains(k) by {
        if keys.contains(k) {
            let i = choose|i: int| 0 <= i < keys.len() && keys[i] == k;
            assert(m.contains_key(*entries[i].0));
        }
        if m.dom().contains(k) {
            assert(m.contains_key(k));
            let i = choose|i: int| 0 <= i < entries.len() && entries[i] == (&k, &m[k]);
            assert(keys[i] == k);
        }
    }
    lemma_ascending_is_unique(m.dom(), keys);
}

} // verus!
