//! Sets of integers handed out in ascending order, kept in std's `BTreeSet` as the
//! adapters keep their code points and method addresses.
use vstd::prelude::*;
use std::collections::BTreeSet;
use vstd::std_specs::iter::IteratorSpec;
use vstd::std_specs::cmp::OrdSpec;
use vstd::std_specs::btree::{increasing_seq, spec_btree_keys_iter};

verus! {

/// `s` ascends strictly.
pub open spec fn ascending_i32(s: Seq<i32>) -> bool {
    forall|i: int, j: int| 0 <= i < j < s.len() ==> s[i] < s[j]
}

/// `s` ascends strictly.
pub open spec fn ascending_usize(s: Seq<usize>) -> bool {
    forall|i: int, j: int| 0 <= i < j < s.len() ==> s[i] < s[j]
}

/// The keys a `BTreeSet<i32>` walks through come in ascending order.
proof fn lemma_walk_ascends_i32(keys: Seq<&i32>)
    requires
        increasing_seq(keys),
    ensures
        forall|i: int, j: int| 0 <= i < j < keys.len() ==> *keys[i] < *keys[j],
{
    broadcast use vstd::laws_cmp::group_laws_cmp;
    assert(vstd::laws_cmp::obeys_cmp::<i32>());
    assert(vstd::laws_cmp::obeys_cmp::<&i32>());
    vstd::std_specs::btree::axiom_increasing_seq_meaning::<&i32>(keys);
    assert forall|i: int, j: int| 0 <= i < j < keys.len() implies *keys[i] < *keys[j] by {
        assert((&keys[i]).cmp_spec(&&keys[j]) is Less);
    }
}

/// The keys a `BTreeSet<usize>` walks through come in ascending order.
proof fn lemma_walk_ascends_usize(keys: Seq<&usize>)
    requires
        increasing_seq(keys),
    ensures
        forall|i: int, j: int| 0 <= i < j < keys.len() ==> *keys[i] < *keys[j],
{
    broadcast use vstd::laws_cmp::group_laws_cmp;
    assert(vstd::laws_cmp::obeys_cmp::<usize>());
    assert(vstd::laws_cmp::obeys_cmp::<&usize>());
    vstd::std_specs::btree::axiom_increasing_seq_meaning::<&usize>(keys);
    assert forall|i: int, j: int| 0 <= i < j < keys.len() implies *keys[i] < *keys[j] by {
        assert((&keys[i]).cmp_spec(&&keys[j]) is Less);
    }
}

/// The keys a `BTreeMap<u64, _>` walks through come in ascending order.
pub proof fn lemma_walk_ascends_u64(keys: Seq<u64>)
    requires
        increasing_seq(keys),
    ensures
        forall|i: int, j: int| 0 <= i < j < keys.len() ==> keys[i] < keys[j],
{
    broadcast use vstd::laws_cmp::group_laws_cmp;
    assert(vstd::laws_cmp::obeys_cmp::<u64>());
    vstd::std_specs::btree::axiom_increasing_seq_meaning::<u64>(keys);
    assert forall|i: int, j: int| 0 <= i < j < keys.len() implies keys[i] < keys[j] by {
        assert(keys[i].cmp_spec(&keys[j]) is Less);
    }
}

/// `u64` keys are ordered as `BTreeMap` needs them to be.
pub open spec fn u64_keys_ordered() -> bool {
    vstd::laws_cmp::obeys_cmp::<u64>() && vstd::std_specs::btree::key_obeys_cmp_spec::<u64>()
}

/// `u64` keys are ordered as `BTreeMap` needs them to be.
pub proof fn lemma_u64_keys_ordered()
    ensures
        u64_keys_ordered(),
{
    broadcast use vstd::laws_cmp::group_laws_cmp;
    broadcast use vstd::std_specs::btree::group_btree_axioms;
    assert(vstd::laws_cmp::obeys_cmp::<u64>());
}

proof fn lemma_prefix_step<T>(v: Seq<T>, i: int, x: T)
    requires
        0 <= i < v.len(),
    ensures
        v.subrange(0, i + 1).contains(x) <==> (v.subrange(0, i).contains(x) || x == v[i]),
{
    let s = v.subrange(0, i + 1);
    let p = v.subrange(0, i);
    if s.contains(x) {
        let k = choose|k: int| 0 <= k < s.len() && #[trigger] s[k] == x;
        if k < i {
            assert(p[k] == x);
        }
    }
    if p.contains(x) {
        let k = choose|k: int| 0 <= k < p.len() && #[trigger] p[k] == x;
        assert(s[k] == x);
    }
    if x == v[i] {
        assert(s[i] == x);
    }
}

proof fn lemma_ascending_i32_distinct(s: Seq<i32>)
    requires
        ascending_i32(s),
    ensures
        s.no_duplicates(),
{
    assert forall|i: int, j: int| 0 <= i < s.len() && 0 <= j < s.len() && i != j implies s[i] != s[j] by {
        if i < j {
            assert(s[i] < s[j]);
        } else {
            assert(s[j] < s[i]);
        }
    }
}

proof fn lemma_ascending_usize_distinct(s: Seq<usize>)
    requires
        ascending_usize(s),
    ensures
        s.no_duplicates(),
{
    assert forall|i: int, j: int| 0 <= i < s.len() && 0 <= j < s.len() && i != j implies s[i] != s[j] by {
        if i < j {
            assert(s[i] < s[j]);
        } else {
            assert(s[j] < s[i]);
        }
    }
}

/// Two ascending sequences with the same values are the same sequence.
pub proof fn lemma_ascending_usize_unique(a: Seq<usize>, b: Seq<usize>)
    requires
        ascending_usize(a),
        ascending_usize(b),
        a.to_set() == b.to_set(),
    ensures
        a == b,
    decreases a.len(),
{
    if a.len() == 0 {
        if b.len() > 0 {
            assert(b.to_set().contains(b[0]));
            assert(!a.to_set().contains(b[0]));
        }
        assert(a =~= b);
    } else {
        if b.len() == 0 {
            assert(a.to_set().contains(a[0]));
        } else {
            assert(a.to_set().contains(a[0]) && b.to_set().contains(b[0]));
            let j = choose|j: int| 0 <= j < b.len() && b[j] == a[0];
            let k = choose|k: int| 0 <= k < a.len() && a[k] == b[0];
            assert(a[0] <= a[k]);
            assert(b[0] <= b[j]);
            assert(a[0] == b[0]);
            let a1 = a.drop_first();
            let b1 = b.drop_first();
            assert forall|x: usize| a1.to_set().contains(x) <==> b1.to_set().contains(x) by {
                if a1.contains(x) {
                    let p = choose|p: int| 0 <= p < a1.len() && a1[p] == x;
                    assert(a[p + 1] == x && a[0] < a[p + 1]);
                    assert(a.to_set().contains(x));
                    let q = choose|q: int| 0 <= q < b.len() && b[q] == x;
                    assert(q != 0);
                    assert(b1[q - 1] == x);
                }
                if b1.contains(x) {
                    let p = choose|p: int| 0 <= p < b1.len() && b1[p] == x;
                    assert(b[p + 1] == x && b[0] < b[p + 1]);
                    assert(b.to_set().contains(x));
                    let q = choose|q: int| 0 <= q < a.len() && a[q] == x;
                    assert(q != 0);
                    assert(a1[q - 1] == x);
                }
            }
            assert(a1.to_set() =~= b1.to_set());
            lemma_ascending_usize_unique(a1, b1);
            assert(a =~= seq![a[0]] + a1);
            assert(b =~= seq![b[0]] + b1);
        }
    }
}

/// The values of `v`, each once, in ascending order: collected into a `BTreeSet` and
/// walked.
pub fn ascending_values_i32(v: &Vec<i32>) -> (r: Vec<i32>)
    ensures
        ascending_i32(r@),
        r@.no_duplicates(),
        forall|x: i32| r@.contains(x) <==> v@.contains(x),
        r@.to_set() == v@.to_set(),
{
    broadcast use vstd::std_specs::btree::group_btree_axioms;
    let mut set: BTreeSet<i32> = BTreeSet::new();
    let mut i: usize = 0;
    while i < v.len()
        invariant
            i <= v@.len(),
            forall|x: i32| set@.contains(x) <==> v@.subrange(0, i as int).contains(x),
        decreases v.len() - i,
    {
        set.insert(v[i]);
        proof {
            assert forall|x: i32| set@.contains(x) <==> v@.subrange(0, i + 1).contains(x) by {
                lemma_prefix_step(v@, i as int, x);
            }
        }
        i += 1;
    }
    assert(v@.subrange(0, v@.len() as int) =~= v@);
    let mut out: Vec<i32> = Vec::new();
    let walk = set.iter();
    let ghost keys = spec_btree_keys_iter(&set).remaining();
    for x in it: walk
        invariant
            it.seq() == keys,
            out.len() == it.index(),
            forall|k: int| 0 <= k < out.len() ==> out@[k] == *keys[k],
    {
        out.push(*x);
    }
    proof {
        assert(out@ =~= keys.map_values(|p: &i32| *p));
        assert(keys.unref().to_set() == set@);
        lemma_walk_ascends_i32(keys);
        assert forall|x: i32| out@.contains(x) <==> v@.contains(x) by {
            if out@.contains(x) {
                let k = choose|k: int| 0 <= k < out@.len() && out@[k] == x;
                assert(keys.unref()[k] == x);
                assert(keys.unref().to_set().contains(x));
            }
            if v@.contains(x) {
                assert(keys.unref().to_set().contains(x));
                let k = choose|k: int| 0 <= k < keys.unref().len() && keys.unref()[k] == x;
                assert(out@[k] == x);
            }
        }
        lemma_ascending_i32_distinct(out@);
        assert(out@.to_set() =~= v@.to_set());
    }
    out
}

/// The values of `v`, each once, in ascending order: collected into a `BTreeSet` and
/// walked.
pub fn ascending_values_usize(v: &Vec<usize>) -> (r: Vec<usize>)
    ensures
        ascending_usize(r@),
        r@.no_duplicates(),
        forall|x: usize| r@.contains(x) <==> v@.contains(x),
        r@.to_set() == v@.to_set(),
{
    broadcast use vstd::std_specs::btree::group_btree_axioms;
    let mut set: BTreeSet<usize> = BTreeSet::new();
    let mut i: usize = 0;
    while i < v.len()
        invariant
            i <= v@.len(),
            forall|x: usize| set@.contains(x) <==> v@.subrange(0, i as int).contains(x),
        decreases v.len() - i,
    {
        set.insert(v[i]);
        proof {
            assert forall|x: usize| set@.contains(x) <==> v@.subrange(0, i + 1).contains(x) by {
                lemma_prefix_step(v@, i as int, x);
            }
        }
        i += 1;
    }
    assert(v@.subrange(0, v@.len() as int) =~= v@);
    let mut out: Vec<usize> = Vec::new();
    let walk = set.iter();
    let ghost keys = spec_btree_keys_iter(&set).remaining();
    for x in it: walk
        invariant
            it.seq() == keys,
            out.len() == it.index(),
            forall|k: int| 0 <= k < out.len() ==> out@[k] == *keys[k],
    {
        out.push(*x);
    }
    proof {
        assert(out@ =~= keys.map_values(|p: &usize| *p));
        assert(keys.unref().to_set() == set@);
        lemma_walk_ascends_usize(keys);
        assert forall|x: usize| out@.contains(x) <==> v@.contains(x) by {
            if out@.contains(x) {
                let k = choose|k: int| 0 <= k < out@.len() && out@[k] == x;
                assert(keys.unref()[k] == x);
                assert(keys.unref().to_set().contains(x));
            }
            if v@.contains(x) {
                assert(keys.unref().to_set().contains(x));
                let k = choose|k: int| 0 <= k < keys.unref().len() && keys.unref()[k] == x;
                assert(out@[k] == x);
            }
        }
        lemma_ascending_usize_distinct(out@);
        assert(out@.to_set() =~= v@.to_set());
    }
    out
}

} // verus!
