//! The cycling order of candidates: by depth, then by identifier.

use vstd::prelude::*;
use crate::scene::{Placement, lookup};

verus! {

/// The depth of `e` in the scene; `0` for an object without placement.
pub open spec fn depth(scene: Seq<Placement>, e: u64) -> int {
    match lookup(scene, e) {
        Some(xf) => xf.tz as int,
        None => 0,
    }
}

/// Whether `a` comes before `b` in the cycling order.
pub open spec fn before(scene: Seq<Placement>, a: u64, b: u64) -> bool {
    depth(scene, a) < depth(scene, b) || (depth(scene, a) == depth(scene, b) && a < b)
}

/// How many members of `s` come before `e`: the index of `e` in `s` sorted.
pub open spec fn rank(s: Set<u64>, scene: Seq<Placement>, e: u64) -> int {
    s.filter(|x: u64| before(scene, x, e)).len() as int
}

/// The order of `(depth, identifier)` keys.
pub open spec fn key_lt(a: (i32, u64), b: (i32, u64)) -> bool {
    a.0 < b.0 || (a.0 == b.0 && a.1 < b.1)
}

/// Compares two keys.
pub fn key_less(a: (i32, u64), b: (i32, u64)) -> (r: bool)
    ensures
        r == key_lt(a, b),
{
    a.0 < b.0 || (a.0 == b.0 && a.1 < b.1)
}

/// Strictly increasing keys.
pub open spec fn sorted_keys(v: Seq<(i32, u64)>) -> bool {
    forall|i: int, j: int| 0 <= i < j < v.len() ==> key_lt(#[trigger] v[i], #[trigger] v[j])
}

/// Each key holds the depth of its object, which has a placement.
pub open spec fn keys_match_scene(v: Seq<(i32, u64)>, scene: Seq<Placement>) -> bool {
    forall|i: int|
        0 <= i < v.len() ==> lookup(scene, (#[trigger] v[i]).1) is Some && depth(scene, v[i].1)
            == v[i].0
}

/// The objects that the keys name.
pub open spec fn key_set(v: Seq<(i32, u64)>) -> Set<u64> {
    Set::new(|e: u64| exists|i: int| 0 <= i < v.len() && (#[trigger] v[i]).1 == e)
}

/// Inserts `x` into strictly increasing keys, keeping them so.
#[verifier::spinoff_prover]
pub fn insert_sorted(v: &mut Vec<(i32, u64)>, x: (i32, u64))
    requires
        sorted_keys(old(v)@),
        forall|i: int| 0 <= i < old(v)@.len() ==> (#[trigger] old(v)@[i]).1 != x.1,
    ensures
        sorted_keys(final(v)@),
        final(v)@.len() == old(v)@.len() + 1,
        forall|y: (i32, u64)| final(v)@.contains(y) <==> (old(v)@.contains(y) || y == x),
{
    let mut p: usize = 0;
    while p < v.len() && key_less(v[p], x)
        invariant
            v@ == old(v)@,
            p <= v@.len(),
            forall|i: int| 0 <= i < p ==> key_lt(#[trigger] v@[i], x),
        decreases v@.len() - p,
    {
        p = p + 1;
    }
    let ghost old_v = v@;
    v.insert(p, x);
    proof {
        assert(v@ =~= old_v.subrange(0, p as int).push(x) + old_v.subrange(p as int, old_v.len() as int));
        assert forall|i: int, j: int| 0 <= i < j < v@.len() implies key_lt(#[trigger] v@[i], #[trigger] v@[j]) by {
            if j < p {
                assert(key_lt(old_v[i], old_v[j]));
            } else if j == p {
            } else if i < p {
                assert(key_lt(old_v[i], x));
                assert(key_lt(old_v[p as int], old_v[j - 1]) || p == j - 1);
                assert(old_v[p as int].1 != x.1);
            } else if i == p {
                assert(old_v[p as int].1 != x.1);
                assert(key_lt(old_v[p as int], old_v[j - 1]) || p == j - 1);
            } else {
                assert(key_lt(old_v[i - 1], old_v[j - 1]));
            }
        }
        assert(old_v == old(v)@);
        assert forall|y: (i32, u64)| #[trigger] v@.contains(y) <==> (old_v.contains(y) || y == x) by {
            if v@.contains(y) {
                let k = choose|k: int| 0 <= k < v@.len() && v@[k] == y;
                if k < p {
                    assert(old_v[k] == y);
                } else if k > p {
                    assert(old_v[k - 1] == y);
                }
            }
            if old_v.contains(y) {
                let k = choose|k: int| 0 <= k < old_v.len() && old_v[k] == y;
                if k < p {
                    assert(v@[k] == y);
                } else {
                    assert(v@[k + 1] == y);
                }
            }
            if y == x {
                assert(v@[p as int] == y);
            }
        }
    }
}

/// In strictly increasing keys that match the scene, the object at index
/// `k` has rank `k` among the objects named.
pub proof fn lemma_rank_of_sorted(v: Seq<(i32, u64)>, scene: Seq<Placement>, k: int)
    requires
        sorted_keys(v),
        keys_match_scene(v, scene),
        0 <= k < v.len(),
    ensures
        rank(key_set(v), scene, v[k].1) == k,
{
    let s = key_set(v);
    let e = v[k].1;
    let prefix = v.subrange(0, k).map_values(|p: (i32, u64)| p.1);
    assert forall|j: int| 0 <= j < v.len() implies (before(scene, #[trigger] v[j].1, e) <==> j < k) by {
        if j < k {
            assert(key_lt(v[j], v[k]));
        } else if j > k {
            assert(key_lt(v[k], v[j]));
        }
    }
    assert(s.filter(|x: u64| before(scene, x, e)) =~= prefix.to_set()) by {
        assert forall|x: u64| s.filter(|x: u64| before(scene, x, e)).contains(x) implies prefix.to_set().contains(x) by {
            let j = choose|j: int| 0 <= j < v.len() && (#[trigger] v[j]).1 == x;
            assert(prefix[j] == x);
        }
        assert forall|x: u64| prefix.to_set().contains(x) implies s.filter(|x: u64| before(scene, x, e)).contains(x) by {
            let j = choose|j: int| 0 <= j < prefix.len() && prefix[j] == x;
            assert(v[j].1 == x);
        }
    }
    assert forall|a: int, b: int| 0 <= a < prefix.len() && 0 <= b < prefix.len() && a != b implies prefix[a] != prefix[b] by {
        if a < b {
            assert(key_lt(v[a], v[b]));
        } else {
            assert(key_lt(v[b], v[a]));
        }
    }
    prefix.unique_seq_to_set();
}

/// Two members of a finite set with the same rank are the same.
pub proof fn lemma_rank_unique(s: Set<u64>, scene: Seq<Placement>, a: u64, b: u64)
    requires
        s.finite(),
        s.contains(a),
        s.contains(b),
        rank(s, scene, a) == rank(s, scene, b),
    ensures
        a == b,
{
    if a != b {
        let (lo, hi) = if before(scene, a, b) {
            (a, b)
        } else {
            (b, a)
        };
        let flo = s.filter(|x: u64| before(scene, x, lo));
        let fhi = s.filter(|x: u64| before(scene, x, hi));
        assert(flo.subset_of(fhi));
        assert(flo.insert(lo).subset_of(fhi));
        vstd::set_lib::lemma_len_subset(flo.insert(lo), fhi);
        assert(!flo.contains(lo));
    }
}

/// A member's rank is below the number of members.
pub proof fn lemma_rank_bound(s: Set<u64>, scene: Seq<Placement>, e: u64)
    requires
        s.finite(),
        s.contains(e),
    ensures
        0 <= rank(s, scene, e) < s.len(),
{
    let f = s.filter(|x: u64| before(scene, x, e));
    assert(f.subset_of(s.remove(e)));
    vstd::set_lib::lemma_len_subset(f, s.remove(e));
}

} // verus!
