//! Draw-time replacement for hosts that draw NUL-terminated UTF-8 strings: the
//! original call stands unless the source and the decided text are both bounded,
//! and the replacement is non-empty and holds no NUL byte.
use vstd::prelude::*;
use crate::chars::{contains_byte, str_bytes, utf8_chars, utf8_str};
use crate::domain::{decided_replacement, replacement_of, RenderDecision};
use crate::unicode::{chars_of, string_of};

verus! {

pub const MAX_TEXT_BYTES: usize = 64 * 1024;

/// The source text the host is asked about, or `None` when the call passes through.
pub open spec fn byte_source(source: Seq<u8>) -> Option<Seq<char>> {
    if source.len() == 0 || source.len() > MAX_TEXT_BYTES {
        None
    } else {
        utf8_chars(source)
    }
}

/// The bytes to draw in place of `source`, or `None` to draw the original.
pub open spec fn byte_replacement(replace: bool, source: Seq<u8>, decision: Option<RenderDecision>) -> Option<Seq<u8>> {
    if byte_source(source) is None {
        None
    } else {
        match decided_replacement(decision) {
            Some(t) => {
                let b = vstd::utf8::encode_utf8(t);
                if !replace || t.len() == 0 || b.contains(0u8) || b.len() > MAX_TEXT_BYTES {
                    None
                } else {
                    Some(b)
                }
            },
            None => None,
        }
    }
}

pub fn utf8_decision_source(source: &[u8]) -> (r: Option<String>)
    ensures
        match r {
            Some(s) => byte_source(source@) == Some(s@),
            None => byte_source(source@) is None,
        },
{
    if source.len() == 0 || source.len() > MAX_TEXT_BYTES {
        return None;
    }
    match utf8_str(source) {
        Some(s) => {
            let chars = chars_of(s);
            Some(string_of(&chars))
        },
        None => None,
    }
}

pub fn prepare_bytes(replace: bool, source: &[u8], decision: Option<RenderDecision>) -> (r: Option<Vec<u8>>)
    ensures
        match r {
            Some(b) => byte_replacement(replace, source@, decision) == Some(b@),
            None => byte_replacement(replace, source@, decision) is None,
        },
{
    if utf8_decision_source(source).is_none() {
        return None;
    }
    match replacement_of(&decision) {
        Some(t) => {
            let chars = chars_of(t.as_str());
            let bytes = str_bytes(t.as_str());
            if !replace || chars.len() == 0 || contains_byte(&bytes, 0) || bytes.len() > MAX_TEXT_BYTES {
                None
            } else {
                Some(bytes)
            }
        },
        None => None,
    }
}

} // verus!
