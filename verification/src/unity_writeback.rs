//! Writing texts back into Unity components: which setter calls a batch of writes makes,
//! and what each call needs before the runtime is touched.
use vstd::prelude::*;
use crate::unity_metadata::{StandardUiKind, TextTarget};

verus! {

/// Why a write-back failed.
#[derive(Clone, Copy, Debug, PartialEq, Eq, Structural)]
pub enum WritebackError {
    WritebackUnavailable,
    ThreadUnavailable,
    MissingSetter,
    InvalidStringLength,
    StringAllocationFailed,
    StringHandleFailed,
    InvokeException,
}

/// The calls for the writes whose objects `objects[i..]` are still alive: `(write, object)`.
pub open spec fn live_writes(objects: Seq<Option<usize>>, i: int) -> Seq<(usize, usize)>
    decreases objects.len() - i,
{
    if i < 0 || i >= objects.len() {
        Seq::empty()
    } else {
        match objects[i] {
            Some(o) => seq![(i as usize, o)] + live_writes(objects, i + 1),
            None => live_writes(objects, i + 1),
        }
    }
}

/// The setter calls for a batch of writes, in order: none at all when the calling thread
/// is not attached to the runtime, and none for a write whose object was collected
/// (`objects[i]` is `None`), which fails open.
pub fn plan_writes(thread_ready: bool, objects: &[Option<usize>]) -> (r: Result<Vec<(usize, usize)>, WritebackError>)
    ensures
        !thread_ready ==> r == Err::<Vec<(usize, usize)>, WritebackError>(WritebackError::ThreadUnavailable),
        thread_ready ==> (r matches Ok(v) && v@ == live_writes(objects@, 0)),
{
    if !thread_ready {
        return Err(WritebackError::ThreadUnavailable);
    }
    let mut out: Vec<(usize, usize)> = Vec::new();
    let mut i: usize = 0;
    while i < objects.len()
        invariant
            i <= objects@.len(),
            live_writes(objects@, 0) == out@ + live_writes(objects@, i as int),
        decreases objects.len() - i,
    {
        let ghost before = out@;
        if let Some(o) = objects[i] {
            out.push((i, o));
            assert(before + (seq![(i, o)] + live_writes(objects@, i + 1)) =~= out@ + live_writes(objects@, i + 1));
        }
        i += 1;
    }
    assert(out@ + live_writes(objects@, i as int) =~= out@);
    Ok(out)
}

/// The text setter of the first target of `kind`.
pub open spec fn setter_of(targets: Seq<TextTarget>, kind: StandardUiKind) -> Option<usize>
    decreases targets.len(),
{
    if targets.len() == 0 {
        None
    } else if targets[0].kind == kind {
        targets[0].text_setter
    } else {
        setter_of(targets.drop_first(), kind)
    }
}

/// The setter a write of `kind` calls, and the length it passes for `units_len` units: a
/// missing target or setter, or a length past `i32`, fails before anything is allocated.
pub fn prepare_text_call(targets: &[TextTarget], kind: StandardUiKind, units_len: usize) -> (r: Result<
    (usize, i32),
    WritebackError,
>)
    ensures
        match setter_of(targets@, kind) {
            None => r == Err::<(usize, i32), WritebackError>(WritebackError::MissingSetter),
            Some(setter) => if units_len <= i32::MAX {
                r == Ok::<(usize, i32), WritebackError>((setter, units_len as i32))
            } else {
                r == Err::<(usize, i32), WritebackError>(WritebackError::InvalidStringLength)
            },
        },
{
    let mut k: usize = 0;
    assert(targets@.skip(0) =~= targets@);
    while k < targets.len()
        invariant
            k <= targets@.len(),
            setter_of(targets@, kind) == setter_of(targets@.skip(k as int), kind),
        decreases targets.len() - k,
    {
        if targets[k].kind == kind {
            let setter = match targets[k].text_setter {
                Some(s) => s,
                None => return Err(WritebackError::MissingSetter),
            };
            if units_len > 2147483647 {
                return Err(WritebackError::InvalidStringLength);
            }
            return Ok((setter, units_len as i32));
        }
        assert(targets@.skip(k as int).drop_first() =~= targets@.skip(k + 1));
        k += 1;
    }
    Err(WritebackError::MissingSetter)
}

} // verus!
