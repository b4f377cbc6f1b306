//! The bookkeeping of a stop-the-world snapshot of Unity text components: the objects
//! the liveness walk reports, and the texts read from them into one UTF-16 buffer.
use vstd::prelude::*;
use crate::unity_metadata::StandardUiKind;

verus! {

/// The most objects one snapshot keeps.
pub const MAX_SNAPSHOT_OBJECTS: usize = 4096;
/// The most UTF-16 units one snapshot keeps, over all texts.
pub const MAX_SNAPSHOT_UTF16_UNITS: usize = 1024 * 1024;

/// The non-null objects among `batch[..n]`, in order.
pub open spec fn kept_objects(batch: Seq<usize>, n: int) -> Seq<usize>
    decreases n,
{
    if n <= 0 || n > batch.len() {
        Seq::empty()
    } else if batch[n - 1] != 0 {
        kept_objects(batch, n - 1).push(batch[n - 1])
    } else {
        kept_objects(batch, n - 1)
    }
}

/// How many of a reported batch fit: the batch, at most up to the snapshot's object limit.
pub open spec fn batch_room(batch_len: int, kept: int) -> int {
    let room = if kept >= MAX_SNAPSHOT_OBJECTS { 0 } else { MAX_SNAPSHOT_OBJECTS - kept };
    if batch_len < room { batch_len } else { room }
}

/// Records one batch of objects the liveness walk reports: the non-null ones among as
/// many as still fit.
pub fn register_liveness_batch(objects: &mut Vec<usize>, batch: &[usize])
    ensures
        final(objects)@ == old(objects)@ + kept_objects(batch@, batch_room(batch@.len() as int, old(objects)@.len() as int)),
{
    let room = if objects.len() >= MAX_SNAPSHOT_OBJECTS { 0 } else { MAX_SNAPSHOT_OBJECTS - objects.len() };
    let n = if batch.len() < room { batch.len() } else { room };
    let ghost start = objects@;
    let mut index: usize = 0;
    while index < n
        invariant
            n <= batch@.len(),
            index <= n,
            objects@ == start + kept_objects(batch@, index as int),
        decreases n - index,
    {
        if batch[index] != 0 {
            objects.push(batch[index]);
            assert(start + kept_objects(batch@, index + 1) =~= start + kept_objects(batch@, index as int).push(
                batch@[index as int]));
        }
        index += 1;
    }
}

/// The values of `s` ascend strictly.
pub open spec fn strictly_ascending(s: Seq<usize>) -> bool {
    forall|i: int, j: int| 0 <= i < j < s.len() ==> s[i] < s[j]
}

/// The objects of one walk, each once, in ascending order.
pub fn liveness_set(objects: &Vec<usize>) -> (r: Vec<usize>)
    ensures
        strictly_ascending(r@),
        forall|x: usize| r@.contains(x) <==> objects@.contains(x),
{
    let mut out: Vec<usize> = Vec::new();
    let mut i: usize = 0;
    while i < objects.len()
        invariant
            i <= objects@.len(),
            strictly_ascending(out@),
            forall|x: usize| out@.contains(x) <==> objects@.subrange(0, i as int).contains(x),
        decreases objects.len() - i,
    {
        let x = objects[i];
        let mut p: usize = 0;
        while p < out.len() && out[p] < x
            invariant
                p <= out@.len(),
                forall|k: int| 0 <= k < p ==> out@[k] < x,
            decreases out.len() - p,
        {
            p += 1;
        }
        let ghost before = out@;
        if p == out.len() || out[p] != x {
            out.insert(p, x);
            proof {
                assert forall|a: int, b: int| 0 <= a < b < out@.len() implies out@[a] < out@[b] by {
                    if b < p {
                    } else if b == p {
                    } else if a < p {
                        assert(before[b - 1] > x || before[b - 1] == x || before[b - 1] < x);
                        if (p as int) < before.len() {
                            assert(before[p as int] > x);
                        }
                    } else if a == p {
                        assert(before[p as int] > x);
                    }
                }
                assert forall|y: usize| out@.contains(y) <==> before.contains(y) || y == x by {
                    if out@.contains(y) {
                        let k = choose|k: int| 0 <= k < out@.len() && out@[k] == y;
                        if k < p {
                            assert(before[k] == y);
                        } else if k > p {
                            assert(before[k - 1] == y);
                        }
                    }
                    if before.contains(y) {
                        let k = choose|k: int| 0 <= k < before.len() && before[k] == y;
                        if k < p {
                            assert(out@[k] == y);
                        } else {
                            assert(out@[k + 1] == y);
                        }
                    }
                    if y == x {
                        assert(out@[p as int] == x);
                    }
                }
            }
        } else {
            assert(before.contains(x)) by {
                assert(before[p as int] == x);
            }
        }
        proof {
            assert forall|y: usize| objects@.subrange(0, i + 1).contains(y) <==> objects@.subrange(0, i as int).contains(y)
                || y == x by {
                let s = objects@.subrange(0, i + 1);
                if s.contains(y) {
                    let k = choose|k: int| 0 <= k < s.len() && s[k] == y;
                    if k < i {
                        assert(objects@.subrange(0, i as int)[k] == y);
                    }
                }
                if objects@.subrange(0, i as int).contains(y) {
                    let k = choose|k: int| 0 <= k < i && objects@.subrange(0, i as int)[k] == y;
                    assert(s[k] == y);
                }
                if y == x {
                    assert(s[i as int] == x);
                }
            }
            assert forall|y: usize| out@.contains(y) <==> objects@.subrange(0, i + 1).contains(y) by {
                assert(before.contains(y) <==> objects@.subrange(0, i as int).contains(y));
            }
        }
        i += 1;
    }
    assert(objects@.subrange(0, objects@.len() as int) =~= objects@);
    out
}

/// One text read during the walk: its object, kind, and where its units sit in the buffer.
#[derive(Clone, Copy, Debug, PartialEq, Eq, Structural)]
pub struct RawText {
    pub object: u64,
    pub kind: StandardUiKind,
    pub start: usize,
    pub length: usize,
}

/// A captured text as the snapshot hands it on.
#[derive(Clone, Debug, PartialEq, Eq)]
pub struct CapturedText {
    pub object: u64,
    pub kind: StandardUiKind,
    pub units: Vec<u16>,
}

/// The texts of a snapshot in progress: their records and the shared UTF-16 buffer.
pub struct SnapshotTexts {
    raw: Vec<RawText>,
    utf16: Vec<u16>,
}

impl SnapshotTexts {
    /// Every record lies inside the buffer, and both stay within the snapshot limits.
    pub closed spec fn wf(&self) -> bool {
        &&& self.raw@.len() <= MAX_SNAPSHOT_OBJECTS
        &&& self.utf16@.len() <= MAX_SNAPSHOT_UTF16_UNITS
        &&& forall|k: int| 0 <= k < self.raw@.len() ==> #[trigger] self.raw@[k].start + self.raw@[k].length
            <= self.utf16@.len()
    }

    /// The texts recorded so far: object, kind and units, in the order they were read.
    pub closed spec fn texts(&self) -> Seq<(u64, StandardUiKind, Seq<u16>)> {
        Seq::new(
            self.raw@.len(),
            |k: int|
                (
                    self.raw@[k].object,
                    self.raw@[k].kind,
                    self.utf16@.subrange(self.raw@[k].start as int, self.raw@[k].start + self.raw@[k].length),
                ),
        )
    }

    /// The units recorded so far, over all texts.
    pub closed spec fn used_units(&self) -> nat {
        self.utf16@.len()
    }

    /// An empty snapshot.
    pub fn new() -> (r: Self)
        ensures
            r.wf(),
            r.texts() == Seq::<(u64, StandardUiKind, Seq<u16>)>::empty(),
            r.used_units() == 0,
    {
        let r = SnapshotTexts { raw: Vec::new(), utf16: Vec::new() };
        assert(r.texts() =~= Seq::<(u64, StandardUiKind, Seq<u16>)>::empty());
        r
    }

    /// Whether the snapshot holds as many texts as it may.
    pub fn is_full(&self) -> (r: bool)
        requires
            self.wf(),
        ensures
            r == (self.texts().len() == MAX_SNAPSHOT_OBJECTS),
    {
        self.raw.len() == MAX_SNAPSHOT_OBJECTS
    }

    /// The length of a string the runtime reports, when the snapshot takes it: not negative,
    /// at most `max_units`, and within the units the buffer has left.
    pub fn admitted_length(&self, reported: i32, max_units: usize) -> (r: Option<usize>)
        requires
            self.wf(),
        ensures
            match r {
                Some(n) => reported >= 0 && n == reported && n <= max_units && self.used_units() + n
                    <= MAX_SNAPSHOT_UTF16_UNITS,
                None => reported < 0 || reported > max_units || self.used_units() + reported > MAX_SNAPSHOT_UTF16_UNITS,
            },
    {
        if reported < 0 {
            return None;
        }
        let length = reported as usize;
        if length > max_units || length > MAX_SNAPSHOT_UTF16_UNITS - self.utf16.len() {
            None
        } else {
            Some(length)
        }
    }

    /// Records the text `units` of `object`; a null object, a full snapshot or units past
    /// the buffer's limit record nothing.
    pub fn push_text(&mut self, object: usize, kind: StandardUiKind, units: &[u16]) -> (r: bool)
        requires
            old(self).wf(),
        ensures
            final(self).wf(),
            r == (object != 0 && old(self).texts().len() < MAX_SNAPSHOT_OBJECTS && old(self).used_units() + units@.len()
                <= MAX_SNAPSHOT_UTF16_UNITS),
            r ==> final(self).texts() == old(self).texts().push((object as u64, kind, units@)),
            r ==> final(self).used_units() == old(self).used_units() + units@.len(),
            !r ==> final(self).texts() == old(self).texts() && final(self).used_units() == old(self).used_units(),
    {
        if object == 0 || self.raw.len() >= MAX_SNAPSHOT_OBJECTS || units.len() > MAX_SNAPSHOT_UTF16_UNITS
            - self.utf16.len() {
            return false;
        }
        let ghost before = *self;
        let start = self.utf16.len();
        crate::chars::append_all(&mut self.utf16, units);
        self.raw.push(RawText { object: object as u64, kind, start, length: units.len() });
        proof {
            assert forall|k: int| 0 <= k < before.raw@.len() implies #[trigger] self.utf16@.subrange(
                self.raw@[k].start as int,
                self.raw@[k].start + self.raw@[k].length,
            ) == before.utf16@.subrange(before.raw@[k].start as int, before.raw@[k].start + before.raw@[k].length) by {
                assert(self.raw@[k] == before.raw@[k]);
                assert(self.utf16@.subrange(self.raw@[k].start as int, self.raw@[k].start + self.raw@[k].length)
                    =~= before.utf16@.subrange(before.raw@[k].start as int, before.raw@[k].start + before.raw@[k].length));
            }
            assert(self.utf16@.subrange(start as int, start + units@.len()) =~= units@);
            assert(self.texts() =~= before.texts().push((object as u64, kind, units@)));
        }
        true
    }

    /// The captured texts, in the order they were read.
    pub fn finish(self) -> (r: Vec<CapturedText>)
        requires
            self.wf(),
        ensures
            r@.len() == self.texts().len(),
            forall|k: int| 0 <= k < r@.len() ==> (#[trigger] r@[k]).object == self.texts()[k].0 && r@[k].kind
                == self.texts()[k].1 && r@[k].units@ == self.texts()[k].2,
    {
        let mut out: Vec<CapturedText> = Vec::new();
        let mut k: usize = 0;
        while k < self.raw.len()
            invariant
                self.wf(),
                k <= self.raw@.len(),
                out@.len() == k,
                forall|j: int| 0 <= j < k ==> (#[trigger] out@[j]).object == self.texts()[j].0 && out@[j].kind
                    == self.texts()[j].1 && out@[j].units@ == self.texts()[j].2,
            decreases self.raw.len() - k,
        {
            let raw = self.raw[k];
            assert(raw.start + raw.length <= self.utf16@.len());
            let units = crate::chars::copy_range(self.utf16.as_slice(), raw.start, raw.start + raw.length);
            out.push(CapturedText { object: raw.object, kind: raw.kind, units });
            k += 1;
        }
        out
    }
}

} // verus!
