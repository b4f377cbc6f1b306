//! The registry of managed objects a Unity session tracks: each object is known by a
//! nonzero identifier and held through one weak handle, and found again by its address.
//! The runtime's handle calls stay with the caller; the registry decides what to keep.
use vstd::prelude::*;
use std::collections::{BTreeMap, HashMap};
use vstd::std_specs::iter::IteratorSpec;
use vstd::std_specs::btree::spec_btree_map_iter;
use crate::ordered::{lemma_u64_keys_ordered, lemma_walk_ascends_u64, u64_keys_ordered};

verus! {

broadcast use {vstd::std_specs::hash::group_hash_axioms, vstd::std_specs::btree::group_btree_axioms};

/// The identifier after `n`, skipping zero on wrap-around.
pub open spec fn next_after(n: u64) -> u64 {
    if n == u64::MAX { 1 } else { (n + 1) as u64 }
}

/// Identifiers ascend strictly.
pub open spec fn ascending_ids(objs: Seq<(u64, usize)>) -> bool {
    forall|i: int, j: int| 0 <= i < j < objs.len() ==> objs[i].0 < objs[j].0
}

/// Whether `id` is held.
pub open spec fn tracks(objs: Seq<(u64, usize)>, id: u64) -> bool {
    exists|k: int| 0 <= k < objs.len() && objs[k].0 == id
}

/// The handle held under `id`.
pub open spec fn handle_in(objs: Seq<(u64, usize)>, id: u64) -> Option<usize> {
    if tracks(objs, id) {
        Some(objs[choose|k: int| 0 <= k < objs.len() && objs[k].0 == id].1)
    } else {
        None
    }
}

/// The identifier known for the address `t`.
pub open spec fn id_at(ptrs: Map<usize, u64>, t: usize) -> Option<u64> {
    if ptrs.contains_key(t) {
        Some(ptrs[t])
    } else {
        None
    }
}

/// The held objects whose targets `targets[..n]` are null: collected.
pub open spec fn collected_prefix(objs: Seq<(u64, usize)>, targets: Seq<usize>, n: int) -> Seq<(u64, usize)>
    decreases n,
{
    if n <= 0 {
        Seq::empty()
    } else if targets[n - 1] == 0 {
        collected_prefix(objs, targets, n - 1).push(objs[n - 1])
    } else {
        collected_prefix(objs, targets, n - 1)
    }
}

/// The held objects whose targets `targets[..n]` are live.
pub open spec fn live_prefix(objs: Seq<(u64, usize)>, targets: Seq<usize>, n: int) -> Seq<(u64, usize)>
    decreases n,
{
    if n <= 0 {
        Seq::empty()
    } else if targets[n - 1] != 0 {
        live_prefix(objs, targets, n - 1).push(objs[n - 1])
    } else {
        live_prefix(objs, targets, n - 1)
    }
}

/// The identifier a refresh records for the address `t`: that of the last live object,
/// among the first `n`, found at `t`.
pub open spec fn refreshed_id(objs: Seq<(u64, usize)>, targets: Seq<usize>, t: usize, n: int) -> Option<u64>
    decreases n,
{
    if n <= 0 {
        None
    } else if targets[n - 1] == t && t != 0 {
        Some(objs[n - 1].0)
    } else {
        refreshed_id(objs, targets, t, n - 1)
    }
}

proof fn lemma_handle_at(objs: Seq<(u64, usize)>, k: int)
    requires
        ascending_ids(objs),
        0 <= k < objs.len(),
    ensures
        handle_in(objs, objs[k].0) == Some(objs[k].1),
{
    assert(tracks(objs, objs[k].0));
    let c = choose|c: int| 0 <= c < objs.len() && objs[c].0 == objs[k].0;
    if c != k {
        if c < k {
            assert(objs[c].0 < objs[k].0);
        } else {
            assert(objs[k].0 < objs[c].0);
        }
    }
}

/// What the registry did with a handle from a snapshot.
#[derive(Clone, Copy, Debug, PartialEq, Eq, Structural)]
pub enum Adoption {
    /// A zero handle: there is nothing to keep or free.
    Ignored,
    /// The handle's object is gone: the caller frees the handle.
    Released,
    /// The object is already held under this identifier: the caller frees the new handle.
    Known(u64),
    /// No identifier is free: the caller frees the handle.
    Exhausted,
    /// The handle is kept, and the object held under this new identifier.
    Kept(u64),
}

/// What adopting `handle`, found at `target`, does to a registry and answers. A zero handle
/// is ignored and one whose object is gone released; an address already known answers
/// its identifier; otherwise the next free identifier (of the next two) is taken, the
/// handle kept under it and the address recorded, or, with neither free, nothing is kept.
pub open spec fn adopted(before: ObjectRegistry, after: ObjectRegistry, handle: usize, target: usize, r: Adoption) -> bool {
    let fresh = handle != 0 && target != 0 && id_at(before.pointers(), target) is None;
    let first = before.next_id();
    let second = next_after(first);
    &&& handle == 0 ==> r == Adoption::Ignored
    &&& handle != 0 && target == 0 ==> r == Adoption::Released
    &&& handle != 0 && target != 0 && id_at(before.pointers(), target) is Some ==> r == Adoption::Known(
        id_at(before.pointers(), target)->0,
    )
    &&& fresh ==> if !tracks(before.objects(), first) {
        r == Adoption::Kept(first) && after.next_id() == second
    } else if !tracks(before.objects(), second) {
        r == Adoption::Kept(second) && after.next_id() == next_after(second)
    } else {
        r == Adoption::Exhausted && after.next_id() == next_after(second)
    }
    &&& !fresh ==> after.next_id() == before.next_id()
    &&& !(r is Kept) ==> after.objects() == before.objects() && after.pointers() == before.pointers()
    &&& r matches Adoption::Kept(id) ==> {
        &&& fresh && id != 0 && !tracks(before.objects(), id)
        &&& forall|i: u64| #[trigger] handle_in(after.objects(), i) == if i == id {
            Some(handle)
        } else {
            handle_in(before.objects(), i)
        }
        &&& forall|t: usize| #[trigger] id_at(after.pointers(), t) == if t == target {
            Some(id)
        } else {
            id_at(before.pointers(), t)
        }
    }
}

/// Adopting again an address whose object was just adopted answers the same identifier and
/// changes nothing: each object is held once, whatever handles the snapshots bring.
pub proof fn law_an_address_keeps_its_identifier(
    r0: ObjectRegistry,
    r1: ObjectRegistry,
    r2: ObjectRegistry,
    first_handle: usize,
    second_handle: usize,
    target: usize,
    id: u64,
    answer: Adoption,
)
    requires
        r0.wf(),
        adopted(r0, r1, first_handle, target, Adoption::Kept(id)),
        adopted(r1, r2, second_handle, target, answer),
        second_handle != 0,
    ensures
        answer == Adoption::Known(id),
        r2.objects() == r1.objects(),
        r2.pointers() == r1.pointers(),
        r2.next_id() == r1.next_id(),
{
    assert(id_at(r1.pointers(), target) == Some(id));
}

/// A refresh loses no object and keeps none twice: each one is either collected (its
/// target is null) or stays, in order.
pub proof fn law_refresh_partitions_the_objects(objs: Seq<(u64, usize)>, targets: Seq<usize>, n: int)
    requires
        0 <= n <= objs.len(),
        n <= targets.len(),
    ensures
        collected_prefix(objs, targets, n).len() + live_prefix(objs, targets, n).len() == n,
        forall|k: int| 0 <= k < n && targets[k] == 0 ==> collected_prefix(objs, targets, n).contains(#[trigger] objs[k]),
        forall|k: int| 0 <= k < n && targets[k] != 0 ==> live_prefix(objs, targets, n).contains(#[trigger] objs[k]),
    decreases n,
{
    if n > 0 {
        law_refresh_partitions_the_objects(objs, targets, n - 1);
        let c = collected_prefix(objs, targets, n - 1);
        let l = live_prefix(objs, targets, n - 1);
        assert forall|k: int| 0 <= k < n && targets[k] == 0 implies collected_prefix(objs, targets, n).contains(
            #[trigger] objs[k],
        ) by {
            if k < n - 1 {
                let w = choose|w: int| 0 <= w < c.len() && c[w] == objs[k];
                if targets[n - 1] == 0 {
                    assert(c.push(objs[n - 1])[w] == objs[k]);
                }
            } else {
                assert(c.push(objs[n - 1])[c.len() as int] == objs[k]);
            }
        }
        assert forall|k: int| 0 <= k < n && targets[k] != 0 implies live_prefix(objs, targets, n).contains(
            #[trigger] objs[k],
        ) by {
            if k < n - 1 {
                let w = choose|w: int| 0 <= w < l.len() && l[w] == objs[k];
                if targets[n - 1] != 0 {
                    assert(l.push(objs[n - 1])[w] == objs[k]);
                }
            } else {
                assert(l.push(objs[n - 1])[l.len() as int] == objs[k]);
            }
        }
    }
}

/// `objs` lists exactly the entries of `m`, each as `(identifier, handle)`.
pub open spec fn lists(objs: Seq<(u64, usize)>, m: Map<u64, usize>) -> bool {
    &&& forall|k: int|
        #![trigger objs[k]]
        0 <= k < objs.len() ==> m.contains_key(objs[k].0) && m[objs[k].0] == objs[k].1
    &&& forall|id: u64| #[trigger] m.contains_key(id) ==> tracks(objs, id)
}

/// A map has at most one listing by ascending identifier.
proof fn lemma_listing_unique(a: Seq<(u64, usize)>, b: Seq<(u64, usize)>, m: Map<u64, usize>)
    requires
        ascending_ids(a),
        ascending_ids(b),
        lists(a, m),
        lists(b, m),
    ensures
        a == b,
    decreases a.len(),
{
    if a.len() == 0 {
        if b.len() > 0 {
            assert(m.contains_key(b[0].0));
            assert(tracks(a, b[0].0));
        }
        assert(a =~= b);
    } else {
        assert(m.contains_key(a[0].0));
        assert(tracks(b, a[0].0));
        let j = choose|j: int| 0 <= j < b.len() && b[j].0 == a[0].0;
        assert(m.contains_key(b[0].0));
        assert(tracks(a, b[0].0));
        let k = choose|k: int| 0 <= k < a.len() && a[k].0 == b[0].0;
        if k > 0 {
            assert(a[0].0 < a[k].0);
        }
        if j > 0 {
            assert(b[0].0 < b[j].0);
        }
        assert(a[0].0 == b[0].0);
        assert(a[0].1 == m[a[0].0] && b[0].1 == m[b[0].0]);
        let key = a[0].0;
        let m1 = m.remove(key);
        let a1 = a.drop_first();
        let b1 = b.drop_first();
        assert forall|i: int| 0 <= i < a1.len() implies m1.contains_key(#[trigger] a1[i].0) && m1[a1[i].0] == a1[i].1 by {
            assert(a1[i] == a[i + 1]);
            assert(a[0].0 < a[i + 1].0);
        }
        assert forall|id: u64| #[trigger] m1.contains_key(id) implies tracks(a1, id) by {
            assert(m.contains_key(id));
            let c = choose|c: int| 0 <= c < a.len() && a[c].0 == id;
            assert(c != 0);
            assert(a1[c - 1].0 == id);
        }
        assert forall|i: int| 0 <= i < b1.len() implies m1.contains_key(#[trigger] b1[i].0) && m1[b1[i].0] == b1[i].1 by {
            assert(b1[i] == b[i + 1]);
            assert(b[0].0 < b[i + 1].0);
        }
        assert forall|id: u64| #[trigger] m1.contains_key(id) implies tracks(b1, id) by {
            assert(m.contains_key(id));
            let c = choose|c: int| 0 <= c < b.len() && b[c].0 == id;
            assert(c != 0);
            assert(b1[c - 1].0 == id);
        }
        lemma_listing_unique(a1, b1, m1);
        assert(a =~= seq![a[0]] + a1);
        assert(b =~= seq![b[0]] + b1);
    }
}

/// Where `id` goes in an ascending listing: after the smaller identifiers.
proof fn lemma_split_point(s: Seq<(u64, usize)>, id: u64) -> (p: int)
    requires
        ascending_ids(s),
    ensures
        0 <= p <= s.len(),
        forall|k: int| 0 <= k < p ==> s[k].0 < id,
        forall|k: int| p <= k < s.len() ==> s[k].0 >= id,
    decreases s.len(),
{
    if s.len() == 0 {
        0
    } else if s.last().0 < id {
        assert forall|k: int| 0 <= k < s.len() implies s[k].0 < id by {
            if k < s.len() - 1 {
                assert(s[k].0 < s[s.len() - 1].0);
            }
        }
        s.len() as int
    } else {
        let t = s.drop_last();
        let p = lemma_split_point(t, id);
        assert forall|k: int| 0 <= k < p implies s[k].0 < id by {
            assert(s[k] == t[k]);
        }
        assert forall|k: int| p <= k < s.len() implies s[k].0 >= id by {
            if k < s.len() - 1 {
                assert(s[k] == t[k]);
            }
        }
        p
    }
}

/// The managed objects of a session: by identifier in a `BTreeMap`, whose walk gives them
/// in ascending order, and by address in a `HashMap`.
pub struct ObjectRegistry {
    next_id: u64,
    objects: BTreeMap<u64, usize>,
    listing: Ghost<Seq<(u64, usize)>>,
    pointers: HashMap<usize, u64>,
}

impl ObjectRegistry {
    /// The held objects, `(identifier, handle)`, by ascending identifier.
    pub closed spec fn objects(&self) -> Seq<(u64, usize)> {
        self.listing@
    }

    /// The known addresses, each with the identifier of the object found there.
    pub closed spec fn pointers(&self) -> Map<usize, u64> {
        self.pointers@
    }

    /// The identifier tried first for the next object.
    pub closed spec fn next_id(&self) -> u64 {
        self.next_id
    }

    /// The map of held objects is what `objects` lists.
    pub closed spec fn listed(&self) -> bool {
        lists(self.listing@, self.objects@)
    }

    /// Identifiers are nonzero and ascend; each known address leads to a held object.
    pub open spec fn wf(&self) -> bool {
        &&& self.next_id() != 0
        &&& self.listed()
        &&& ascending_ids(self.objects())
        &&& forall|k: int| 0 <= k < self.objects().len() ==> #[trigger] self.objects()[k].0 != 0
        &&& forall|t: usize| self.pointers().contains_key(t) ==> tracks(self.objects(), #[trigger] self.pointers()[t])
    }

    /// An empty registry whose first identifier is 1.
    pub fn new() -> (r: Self)
        ensures
            r.wf(),
            r.objects() == Seq::<(u64, usize)>::empty(),
            r.pointers() == Map::<usize, u64>::empty(),
            r.next_id() == 1,
    {
        ObjectRegistry { next_id: 1, objects: BTreeMap::new(), listing: Ghost(Seq::empty()), pointers: HashMap::new() }
    }

    /// The held objects, `(identifier, handle)`, by ascending identifier: the handles
    /// whose targets a refresh asks the runtime for.
    pub fn held(&self) -> (r: Vec<(u64, usize)>)
        requires
            self.wf(),
        ensures
            r@ == self.objects(),
    {
        proof {
            lemma_u64_keys_ordered();
        }
        let mut out: Vec<(u64, usize)> = Vec::new();
        let walk = self.objects.iter();
        let ghost entries = spec_btree_map_iter(&self.objects).remaining();
        for e in it: walk
            invariant
                it.seq() == entries,
                out.len() == it.index(),
                forall|k: int| 0 <= k < out.len() ==> #[trigger] out@[k] == (*entries[k].0, *entries[k].1),
        {
            out.push((*e.0, *e.1));
        }
        proof {
            let m = self.objects@;
            let keys = entries.map_values(|kv: (&u64, &usize)| *kv.0);
            lemma_walk_ascends_u64(keys);
            assert forall|i: int, j: int| 0 <= i < j < out@.len() implies out@[i].0 < out@[j].0 by {
                assert(out@[i].0 == keys[i] && out@[j].0 == keys[j]);
            }
            assert forall|k: int| 0 <= k < out@.len() implies m.contains_key(#[trigger] out@[k].0) && m[out@[k].0]
                == out@[k].1 by {
                assert(m.contains_key(*entries[k].0) && m[*entries[k].0] == *entries[k].1);
            }
            assert forall|id: u64| #[trigger] m.contains_key(id) implies tracks(out@, id) by {
                assert(entries.contains((&id, &m[id])));
                let k = choose|k: int| 0 <= k < entries.len() && entries[k] == (&id, &m[id]);
                assert(out@[k].0 == id);
            }
            lemma_listing_unique(out@, self.listing@, m);
        }
        out
    }

    fn is_held(&self, id: u64) -> (r: bool)
        requires
            self.listed(),
        ensures
            r == tracks(self.objects(), id),
    {
        proof {
            lemma_u64_keys_ordered();
        }
        let r = self.objects.contains_key(&id);
        proof {
            if tracks(self.objects(), id) {
                let k = choose|k: int| 0 <= k < self.listing@.len() && self.listing@[k].0 == id;
                assert(self.objects@.contains_key(self.listing@[k].0));
            }
        }
        r
    }

    /// The handle of the object held under `id`.
    pub fn handle_for(&self, id: u64) -> (r: Option<usize>)
        requires
            self.wf(),
        ensures
            r == handle_in(self.objects(), id),
    {
        proof {
            lemma_u64_keys_ordered();
        }
        let r = match self.objects.get(&id) {
            Some(h) => Some(*h),
            None => None,
        };
        proof {
            if tracks(self.objects(), id) {
                let k = choose|k: int| 0 <= k < self.listing@.len() && self.listing@[k].0 == id;
                assert(self.objects@.contains_key(self.listing@[k].0));
                lemma_handle_at(self.listing@, k);
            }
        }
        r
    }

    fn id_for(&self, target: usize) -> (r: Option<u64>)
        ensures
            r == id_at(self.pointers(), target),
    {
        match self.pointers.get(&target) {
            Some(id) => Some(*id),
            None => None,
        }
    }

    /// A fresh identifier: the next one, or the one after it, whichever is not held; the
    /// counter moves past each one tried.
    fn next_object_id(&mut self) -> (r: Option<u64>)
        requires
            old(self).wf(),
        ensures
            final(self).wf(),
            final(self).objects() == old(self).objects(),
            final(self).pointers() == old(self).pointers(),
            ({
                let first = old(self).next_id();
                let second = next_after(first);
                if !tracks(old(self).objects(), first) {
                    r == Some(first) && final(self).next_id() == second
                } else if !tracks(old(self).objects(), second) {
                    r == Some(second) && final(self).next_id() == next_after(second)
                } else {
                    r is None && final(self).next_id() == next_after(second)
                }
            }),
    {
        let first = self.next_id;
        self.next_id = if first == u64::MAX { 1 } else { first + 1 };
        if !self.is_held(first) {
            assert(self.pointers() == old(self).pointers() && self.objects() == old(self).objects());
            return Some(first);
        }
        let second = self.next_id;
        self.next_id = if second == u64::MAX { 1 } else { second + 1 };
        if !self.is_held(second) {
            assert(self.pointers() == old(self).pointers() && self.objects() == old(self).objects());
            return Some(second);
        }
        None
    }

    /// Takes a handle that a snapshot found for an object now at `target` (zero when the
    /// handle's object is gone). An object already known by its address keeps its
    /// identifier; a new one is held under a fresh identifier with this handle.
    pub fn adopt(&mut self, handle: usize, target: usize) -> (r: Adoption)
        requires
            old(self).wf(),
        ensures
            final(self).wf(),
            adopted(*old(self), *final(self), handle, target, r),
    {
        if handle == 0 {
            return Adoption::Ignored;
        }
        if target == 0 {
            return Adoption::Released;
        }
        if let Some(id) = self.id_for(target) {
            return Adoption::Known(id);
        }
        let id = match self.next_object_id() {
            Some(id) => id,
            None => return Adoption::Exhausted,
        };
        let ghost old_objects = self.listing@;
        let ghost old_map = self.objects@;
        let ghost old_pointers = self.pointers@;
        let ghost p = lemma_split_point(old_objects, id);
        proof {
            lemma_u64_keys_ordered();
        }
        self.objects.insert(id, handle);
        self.listing = Ghost(old_objects.insert(p, (id, handle)));
        self.pointers.insert(target, id);
        proof {
            let objs = self.listing@;
            let m = self.objects@;
            assert(m == old_map.insert(id, handle));
            assert forall|k: int| 0 <= k < old_objects.len() implies old_objects[k].0 != id by {
                assert(!tracks(old_objects, id));
            }
            assert forall|i: int, j: int| 0 <= i < j < objs.len() implies objs[i].0 < objs[j].0 by {
                if p < old_objects.len() {
                    assert(old_objects[p].0 >= id);
                }
                if j < p {
                } else if j == p {
                } else if i < p {
                    assert(old_objects[j - 1].0 >= old_objects[p].0 || j - 1 == p);
                } else if i == p {
                    assert(old_objects[j - 1].0 >= old_objects[p].0 || j - 1 == p);
                } else {
                    assert(old_objects[i - 1].0 < old_objects[j - 1].0);
                }
            }
            assert forall|k: int| 0 <= k < objs.len() implies #[trigger] objs[k].0 != 0 by {
                if k < p {
                    assert(objs[k] == old_objects[k]);
                } else if k > p {
                    assert(objs[k] == old_objects[k - 1]);
                }
            }
            assert forall|i: u64| #[trigger] handle_in(objs, i) == if i == id {
                Some(handle)
            } else {
                handle_in(old_objects, i)
            } by {
                if i == id {
                    lemma_handle_at(objs, p);
                } else if tracks(old_objects, i) {
                    let k = choose|k: int| 0 <= k < old_objects.len() && old_objects[k].0 == i;
                    lemma_handle_at(old_objects, k);
                    if k < p {
                        assert(objs[k] == old_objects[k]);
                        lemma_handle_at(objs, k);
                    } else {
                        assert(objs[k + 1] == old_objects[k]);
                        lemma_handle_at(objs, k + 1);
                    }
                } else {
                    if tracks(objs, i) {
                        let k = choose|k: int| 0 <= k < objs.len() && objs[k].0 == i;
                        if k < p {
                            assert(old_objects[k].0 == i);
                        } else if k > p {
                            assert(old_objects[k - 1].0 == i);
                        }
                    }
                }
            }
            let ptrs = self.pointers@;
            assert(ptrs == old_pointers.insert(target, id));
            assert forall|t: usize| ptrs.contains_key(t) implies tracks(objs, #[trigger] ptrs[t]) by {
                if t == target {
                    assert(objs[p].0 == id);
                } else {
                    assert(tracks(old_objects, old_pointers[t]));
                    let c = choose|c: int| 0 <= c < old_objects.len() && old_objects[c].0 == old_pointers[t];
                    if c < p {
                        assert(objs[c] == old_objects[c]);
                    } else {
                        assert(objs[c + 1] == old_objects[c]);
                    }
                }
            }
            assert forall|t: usize| #[trigger] id_at(ptrs, t) == if t == target {
                Some(id)
            } else {
                id_at(old_pointers, t)
            } by {}
            assert forall|k: int| 0 <= k < objs.len() implies m.contains_key(#[trigger] objs[k].0) && m[objs[k].0]
                == objs[k].1 by {
                if k < p {
                    assert(objs[k] == old_objects[k]);
                } else if k > p {
                    assert(objs[k] == old_objects[k - 1]);
                }
            }
            assert forall|i: u64| #[trigger] m.contains_key(i) implies tracks(objs, i) by {
                if i == id {
                    assert(objs[p].0 == id);
                } else {
                    assert(old_map.contains_key(i));
                    let c = choose|c: int| 0 <= c < old_objects.len() && old_objects[c].0 == i;
                    if c < p {
                        assert(objs[c] == old_objects[c]);
                    } else {
                        assert(objs[c + 1] == old_objects[c]);
                    }
                }
            }
            assert(self.listed());
        }
        Adoption::Kept(id)
    }

    /// Completes a refresh: `targets[k]` is where the `k`-th held object now is, zero
    /// when it was collected. Collected objects leave the registry and are returned, so that
    /// their handles are freed; the addresses are rebuilt from the live ones.
    pub fn complete_refresh(&mut self, targets: &[usize]) -> (r: Vec<(u64, usize)>)
        requires
            old(self).wf(),
            targets@.len() == old(self).objects().len(),
        ensures
            final(self).wf(),
            r@ == collected_prefix(old(self).objects(), targets@, targets@.len() as int),
            final(self).objects() == live_prefix(old(self).objects(), targets@, targets@.len() as int),
            forall|t: usize| #[trigger] id_at(final(self).pointers(), t) == refreshed_id(old(self).objects(), targets@, t,
                targets@.len() as int),
            final(self).next_id() == old(self).next_id(),
    {
        let ghost objs = self.listing@;
        let entries = self.held();
        proof {
            lemma_u64_keys_ordered();
        }
        let mut collected: Vec<(u64, usize)> = Vec::new();
        let mut live_map: BTreeMap<u64, usize> = BTreeMap::new();
        let ghost mut live: Seq<(u64, usize)> = Seq::empty();
        let mut pointers: HashMap<usize, u64> = HashMap::new();
        let mut k: usize = 0;
        while k < targets.len()
            invariant
                entries@ == objs,
                u64_keys_ordered(),
                lists(live, live_map@),
                targets@.len() == objs.len(),
                ascending_ids(objs),
                forall|j: int| 0 <= j < objs.len() ==> #[trigger] objs[j].0 != 0,
                k <= targets@.len(),
                collected@ == collected_prefix(objs, targets@, k as int),
                live == live_prefix(objs, targets@, k as int),
                forall|j: int| 0 <= j < live.len() ==> exists|c: int| 0 <= c < k && #[trigger] live[j] == objs[c],
                forall|a: int, b: int| 0 <= a < b < live.len() ==> live[a].0 < live[b].0,
                forall|j: int| 0 <= j < live.len() ==> live[j].0 < objs[k as int].0 || k == objs.len(),
                forall|t: usize| #[trigger] id_at(pointers@, t) == refreshed_id(objs, targets@, t, k as int),
                forall|t: usize| pointers@.contains_key(t) ==> tracks(live, #[trigger] pointers@[t]),
            decreases targets.len() - k,
        {
            let entry = entries[k];
            let ghost live_before = live;
            let ghost ptrs_before = pointers@;
            let ghost live_map_before = live_map@;
            if targets[k] == 0 {
                collected.push(entry);
            } else {
                live_map.insert(entry.0, entry.1);
                proof {
                    live = live.push(entry);
                }
                pointers.insert(targets[k], entry.0);
            }
            proof {
                assert(collected_prefix(objs, targets@, k + 1) == if targets@[k as int] == 0 {
                    collected_prefix(objs, targets@, k as int).push(objs[k as int])
                } else {
                    collected_prefix(objs, targets@, k as int)
                });
                assert(live_prefix(objs, targets@, k + 1) == if targets@[k as int] != 0 {
                    live_prefix(objs, targets@, k as int).push(objs[k as int])
                } else {
                    live_prefix(objs, targets@, k as int)
                });
                assert forall|j: int| 0 <= j < live.len() implies exists|c: int| 0 <= c < k + 1 && #[trigger] live[j]
                    == objs[c] by {
                    if j < live_before.len() {
                        assert(live[j] == live_before[j]);
                        let c = choose|c: int| 0 <= c < k && live_before[j] == objs[c];
                        assert(0 <= c < k + 1 && live[j] == objs[c]);
                    } else {
                        assert(live[j] == objs[k as int]);
                    }
                }
                assert forall|j: int| 0 <= j < live.len() implies live[j].0 < objs[k + 1].0 || k + 1 == objs.len() by {
                    if k + 1 < objs.len() {
                        assert(objs[k as int].0 < objs[k + 1].0);
                        if j < live_before.len() {
                            assert(live[j] == live_before[j]);
                        }
                    }
                }
                assert forall|t: usize| #[trigger] id_at(pointers@, t) == refreshed_id(objs, targets@, t, k + 1) by {
                    assert(id_at(ptrs_before, t) == refreshed_id(objs, targets@, t, k as int));
                }
                assert forall|t: usize| pointers@.contains_key(t) implies tracks(live, #[trigger] pointers@[t]) by {
                    if targets@[k as int] != 0 && t == targets@[k as int] {
                        assert(live[live.len() - 1] == entry);
                    } else if targets@[k as int] != 0 {
                        assert(tracks(live_before, ptrs_before[t]));
                        let w = choose|w: int| 0 <= w < live_before.len() && live_before[w].0 == ptrs_before[t];
                        assert(live[w] == live_before[w]);
                    }
                }
                assert(lists(live, live_map@)) by {
                    if targets@[k as int] != 0 {
                        assert(!live_map_before.contains_key(entry.0)) by {
                            if live_map_before.contains_key(entry.0) {
                                let w = choose|w: int| 0 <= w < live_before.len() && live_before[w].0 == entry.0;
                                assert(live_before[w].0 < objs[k as int].0);
                            }
                        }
                        assert forall|j: int| 0 <= j < live.len() implies live_map@.contains_key(#[trigger] live[j].0)
                            && live_map@[live[j].0] == live[j].1 by {
                            if j < live_before.len() {
                                assert(live[j] == live_before[j]);
                                assert(live_map_before.contains_key(live_before[j].0));
                            }
                        }
                        assert forall|i: u64| #[trigger] live_map@.contains_key(i) implies tracks(live, i) by {
                            if i == entry.0 {
                                assert(live[live.len() - 1] == entry);
                            } else {
                                assert(live_map_before.contains_key(i));
                                let w = choose|w: int| 0 <= w < live_before.len() && live_before[w].0 == i;
                                assert(live[w] == live_before[w]);
                            }
                        }
                    }
                }
            }
            k += 1;
        }
        self.objects = live_map;
        self.listing = Ghost(live);
        self.pointers = pointers;
        proof {
            assert forall|j: int| 0 <= j < self.listing@.len() implies #[trigger] self.listing@[j].0 != 0 by {
                let c = choose|c: int| 0 <= c < k && self.listing@[j] == objs[c];
            }
            assert(self.listed());
        }
        collected
    }

    /// Empties the registry, returning the handles it held (by ascending identifier) so
    /// that they are freed. The identifier counter carries on.
    pub fn clear(&mut self) -> (r: Vec<usize>)
        requires
            old(self).wf(),
        ensures
            final(self).wf(),
            r@.len() == old(self).objects().len(),
            forall|k: int| 0 <= k < r@.len() ==> #[trigger] r@[k] == old(self).objects()[k].1,
            final(self).objects() == Seq::<(u64, usize)>::empty(),
            final(self).pointers() == Map::<usize, u64>::empty(),
            final(self).next_id() == old(self).next_id(),
    {
        let entries = self.held();
        let mut handles: Vec<usize> = Vec::new();
        let mut k: usize = 0;
        while k < entries.len()
            invariant
                k <= entries@.len(),
                handles@.len() == k,
                forall|j: int| 0 <= j < k ==> #[trigger] handles@[j] == entries@[j].1,
            decreases entries.len() - k,
        {
            handles.push(entries[k].1);
            k += 1;
        }
        self.objects = BTreeMap::new();
        self.listing = Ghost(Seq::empty());
        self.pointers = HashMap::new();
        proof {
            assert(self.listed());
        }
        handles
    }
}

} // verus!
