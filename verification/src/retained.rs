//! Restore bookkeeping shared by retained-object adapters: the host's source text
//! and the last text the adapter wrote into the object.
use vstd::prelude::*;

verus! {

/// The abstract state of one retained text object.
pub struct RetainedModel {
    pub source: Seq<char>,
    pub written: Option<Seq<char>>,
}

/// What restoring puts back when the object currently shows `current`.
pub open spec fn restored(m: RetainedModel, current: Seq<char>) -> Option<Seq<char>> {
    if m.written == Some(current) {
        Some(m.source)
    } else {
        None
    }
}

pub open spec fn after_host_write(m: RetainedModel, source: Seq<char>) -> RetainedModel {
    RetainedModel { source, written: None }
}

pub open spec fn after_mark(m: RetainedModel, value: Seq<char>) -> RetainedModel {
    RetainedModel { source: m.source, written: Some(value) }
}

pub open spec fn after_clear(m: RetainedModel) -> RetainedModel {
    RetainedModel { source: m.source, written: None }
}

/// A value read back from the host: anything other than our own write or the known
/// source is a host update and becomes the new source.
pub open spec fn after_observe(m: RetainedModel, current: Seq<char>) -> RetainedModel {
    if m.written != Some(current) && m.source != current {
        after_host_write(m, current)
    } else {
        m
    }
}

/// Restoring only ever overwrites the exact text we wrote last.
pub proof fn law_restore_only_overwrites_our_write(m: RetainedModel, current: Seq<char>)
    ensures
        restored(m, current) is Some ==> m.written == Some(current),
{
}

/// After writing `v`, an object that still shows `v` is restored to its source.
pub proof fn law_restore_after_write(m: RetainedModel, v: Seq<char>)
    ensures
        restored(after_mark(m, v), v) == Some(m.source),
{
}

/// A host write wins over our write: nothing is restored until we write again.
pub proof fn law_host_write_wins(m: RetainedModel, source: Seq<char>, current: Seq<char>)
    ensures
        restored(after_host_write(m, source), current) is None,
        after_host_write(m, source).source == source,
{
}

/// Reading back our own write changes nothing.
pub proof fn law_observing_our_write_is_no_change(m: RetainedModel, v: Seq<char>)
    requires
        m.written == Some(v),
    ensures
        after_observe(m, v) == m,
{
}

/// Reading back an unrelated value adopts it as the source, so it is never overwritten on stop.
pub proof fn law_unrelated_change_becomes_source(m: RetainedModel, current: Seq<char>)
    requires
        m.written != Some(current),
    ensures
        after_observe(m, current).source == current,
        restored(after_observe(m, current), current) is None,
{
}

} // verus!
