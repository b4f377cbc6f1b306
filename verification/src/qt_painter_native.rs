//! Decisions of the native `QPainter::drawText` hooks: the part of a point-draw string
//! that is drawn, which host answers become replacements, the shared reference count
//! of temporary strings, and the per-thread refresh hooks.
use vstd::prelude::*;
use crate::chars::copy_range;
use crate::unicode::{chars_of, decode_utf16, encode_utf16, string_of, utf16, utf16_decode};

verus! {

/// The text a `drawText(point, text, from, length)` call draws: the UTF-16 units from
/// `from`, `length` of them or all the rest for -1, cut at the end; nothing when the
/// range is empty or invalid, or splits a surrogate pair.
pub open spec fn point_text(text: Seq<char>, from: i32, length: i32) -> Option<Seq<char>> {
    let units = utf16(text);
    if from < 0 || from > units.len() || length < -1 {
        None
    } else {
        let end: int = if length == -1 {
            units.len() as int
        } else if from + length > units.len() {
            units.len() as int
        } else {
            from + length
        };
        if end == from {
            None
        } else {
            utf16_decode(units.subrange(from as int, end))
        }
    }
}

pub fn drawn_point_text(text: &str, from: i32, length: i32) -> (r: Option<String>)
    ensures
        match r {
            Some(s) => point_text(text@, from, length) == Some(s@),
            None => point_text(text@, from, length) is None,
        },
{
    if from < 0 {
        return None;
    }
    let chars = chars_of(text);
    let units = encode_utf16(&chars);
    let start = from as usize;
    if start > units.len() || length < -1 {
        return None;
    }
    let end: usize = if length == -1 {
        units.len()
    } else if (length as usize) > units.len() - start {
        units.len()
    } else {
        start + length as usize
    };
    if end == start {
        return None;
    }
    let part = copy_range(&units, start, end);
    match decode_utf16(&part) {
        Some(v) => Some(string_of(&v)),
        None => None,
    }
}

/// The replacement a host answer gives: a decided, bounded, non-empty text while
/// replacement is active.
pub open spec fn painter_replacement(status_ok: bool, replace_active: bool, replace_decided: bool, text_len: u32,
    buf: Seq<u16>) -> Option<Seq<u16>> {
    if !status_ok || text_len > buf.len() || !replace_active || !replace_decided || text_len == 0 {
        None
    } else {
        Some(buf.take(text_len as int))
    }
}

pub fn replacement_units(status_ok: bool, replace_active: bool, replace_decided: bool, text_len: u32, buf: &[u16]) -> (r: Option<Vec<u16>>)
    ensures
        match r {
            Some(v) => painter_replacement(status_ok, replace_active, replace_decided, text_len, buf@) == Some(v@),
            None => painter_replacement(status_ok, replace_active, replace_decided, text_len, buf@) is None,
        },
{
    if !status_ok || text_len as usize > buf.len() || !replace_active || !replace_decided || text_len == 0 {
        return None;
    }
    let v = copy_range(buf, 0, text_len as usize);
    assert(v@ =~= buf@.take(text_len as int));
    Some(v)
}

/// Drops one reference; true when it was the last one. A count that is already zero
/// or below stays as it is.
pub fn release_ref(count: &mut i32) -> (r: bool)
    ensures
        *old(count) > 0 ==> *final(count) == *old(count) - 1 && r == (*old(count) == 1),
        *old(count) <= 0 ==> *final(count) == *old(count) && !r,
{
    if *count > 0 {
        let previous = *count;
        *count = previous - 1;
        previous == 1
    } else {
        false
    }
}

/// A refresh hook installed on one GUI thread.
#[derive(Clone, Copy, Debug, PartialEq, Eq, Structural)]
pub struct WindowThreadHook {
    pub thread_id: u32,
    pub generation: usize,
    pub handle: isize,
}

/// The first hook of `thread_id` and `generation`, or -1.
pub open spec fn hook_index_from(hooks: Seq<WindowThreadHook>, thread_id: u32, generation: usize, i: int) -> int
    decreases hooks.len() - i,
{
    if i < 0 || i >= hooks.len() {
        -1
    } else if hooks[i].thread_id == thread_id && hooks[i].generation == generation {
        i
    } else {
        hook_index_from(hooks, thread_id, generation, i + 1)
    }
}

proof fn lemma_hook_index_bounds(hooks: Seq<WindowThreadHook>, thread_id: u32, generation: usize, i: int)
    requires
        0 <= i,
    ensures
        hook_index_from(hooks, thread_id, generation, i) == -1
            || i <= hook_index_from(hooks, thread_id, generation, i) < hooks.len(),
    decreases hooks.len() - i,
{
    if i < hooks.len() && !(hooks[i].thread_id == thread_id && hooks[i].generation == generation) {
        lemma_hook_index_bounds(hooks, thread_id, generation, i + 1);
    }
}

/// Takes the hook of `thread_id` and `generation` out of the list (the last hook takes its place).
pub fn take_window_thread_hook(hooks: &mut Vec<WindowThreadHook>, thread_id: u32, generation: usize) -> (r: Option<WindowThreadHook>)
    ensures
        ({
            let k = hook_index_from(old(hooks)@, thread_id, generation, 0);
            &&& k == -1 ==> r is None && final(hooks)@ == old(hooks)@
            &&& k != -1 ==> r == Some(old(hooks)@[k])
                && final(hooks)@ == old(hooks)@.update(k, old(hooks)@.last()).drop_last()
        }),
{
    proof {
        lemma_hook_index_bounds(hooks@, thread_id, generation, 0);
    }
    let mut i: usize = 0;
    while i < hooks.len()
        invariant
            i <= hooks.len(),
            hooks@ == old(hooks)@,
            hook_index_from(hooks@, thread_id, generation, 0) == hook_index_from(hooks@, thread_id, generation, i as int),
        decreases hooks.len() - i,
    {
        if hooks[i].thread_id == thread_id && hooks[i].generation == generation {
            let h = hooks.swap_remove(i);
            return Some(h);
        }
        i += 1;
    }
    None
}

} // verus!
