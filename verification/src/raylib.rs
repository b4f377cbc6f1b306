//! raylib `DrawTextEx` draw-time replacement.
use vstd::prelude::*;
use crate::chars::{contains_byte, str_bytes};
use crate::domain::{has_feature, Feature, RenderDecision};
use crate::inline_bytes::{byte_replacement, byte_source, prepare_bytes, utf8_decision_source, MAX_TEXT_BYTES};
use crate::unicode::{chars_of, decode_utf16, string_of, utf16_decode};

verus! {

pub const MAX_FALLBACK_GLYPHS: usize = 4096;

#[derive(Clone, Copy, Debug, PartialEq, Eq)]
pub struct RaylibInlineAdapter {
    text_replace: bool,
}

impl RaylibInlineAdapter {
    pub closed spec fn spec_replace(&self) -> bool {
        self.text_replace
    }

    pub fn new() -> (r: Self)
        ensures
            r.spec_replace(),
    {
        RaylibInlineAdapter { text_replace: true }
    }

    /// The adapter for the features that activation granted.
    pub fn with_active_features(active: &[Feature]) -> (r: Self)
        ensures
            r.spec_replace() == active@.contains(Feature::TextReplace),
    {
        RaylibInlineAdapter { text_replace: has_feature(active, Feature::TextReplace) }
    }

    /// The source text to ask the host about; `None` means draw the original at once.
    pub fn decision_source(&self, source: &[u8]) -> (r: Option<String>)
        ensures
            match r {
                Some(s) => byte_source(source@) == Some(s@),
                None => byte_source(source@) is None,
            },
    {
        utf8_decision_source(source)
    }

    /// The bytes to draw, given the host's decision (`None` when it failed or was not asked);
    /// `None` draws the original.
    pub fn prepare_with(self, source: &[u8], decision: Option<RenderDecision>) -> (r: Option<Vec<u8>>)
        ensures
            match r {
                Some(b) => byte_replacement(self.spec_replace(), source@, decision) == Some(b@),
                None => byte_replacement(self.spec_replace(), source@, decision) is None,
            },
    {
        prepare_bytes(self.text_replace, source, decision)
    }
}

impl Default for RaylibInlineAdapter {
    fn default() -> (r: Self)
        ensures
            r.spec_replace(),
    {
        Self::new()
    }
}

/// Text as `DrawTextEx` lays it out: CR LF and lone CR become LF, tab becomes a space.
pub open spec fn raylib_text_from(s: Seq<char>, i: int) -> Seq<char>
    decreases s.len() - i,
{
    if i < 0 || i >= s.len() {
        Seq::empty()
    } else if s[i] == '\r' && i + 1 < s.len() && s[i + 1] == '\n' {
        seq!['\n'] + raylib_text_from(s, i + 2)
    } else if s[i] == '\r' {
        seq!['\n'] + raylib_text_from(s, i + 1)
    } else if s[i] == '\t' {
        seq![' '] + raylib_text_from(s, i + 1)
    } else {
        seq![s[i]] + raylib_text_from(s, i + 1)
    }
}

pub open spec fn raylib_text(s: Seq<char>) -> Seq<char> {
    raylib_text_from(s, 0)
}

pub fn normalize_raylib_text(text: &str) -> (r: String)
    ensures
        r@ == raylib_text(text@),
{
    let s = chars_of(text);
    let mut out: Vec<char> = Vec::new();
    let mut i: usize = 0;
    while i < s.len()
        invariant
            i <= s.len(),
            s@ == text@,
            raylib_text(s@) == out@ + raylib_text_from(s@, i as int),
        decreases s.len() - i,
    {
        let c = s[i];
        let ghost before = out@;
        if c == '\r' && i + 1 < s.len() && s[i + 1] == '\n' {
            out.push('\n');
            i += 2;
        } else if c == '\r' {
            out.push('\n');
            i += 1;
        } else if c == '\t' {
            out.push(' ');
            i += 1;
        } else {
            out.push(c);
            i += 1;
        }
        assert(before + (seq![out@.last()] + raylib_text_from(s@, i as int)) =~= out@ + raylib_text_from(s@, i as int));
    }
    assert(out@ + raylib_text_from(s@, i as int) =~= out@);
    string_of(&out)
}

/// The bytes a native draw uses in place of the source: the host's replacement, laid out
/// as `DrawTextEx` does, when replacement is active, the host replaced with non-empty
/// well-formed text, and the result is bounded and free of NUL.
pub open spec fn native_replacement(active_replace: bool, decided_replace: bool, units: Seq<u16>) -> Option<Seq<u8>> {
    if !active_replace || !decided_replace || units.len() == 0 {
        None
    } else {
        match utf16_decode(units) {
            Some(t) => {
                let b = vstd::utf8::encode_utf8(raylib_text(t));
                if b.contains(0u8) || b.len() > MAX_TEXT_BYTES {
                    None
                } else {
                    Some(b)
                }
            },
            None => None,
        }
    }
}

pub fn native_replacement_for(active_replace: bool, decided_replace: bool, units: &[u16]) -> (r: Option<Vec<u8>>)
    ensures
        match r {
            Some(b) => native_replacement(active_replace, decided_replace, units@) == Some(b@),
            None => native_replacement(active_replace, decided_replace, units@) is None,
        },
{
    if !active_replace || !decided_replace || units.len() == 0 {
        return None;
    }
    match decode_utf16(units) {
        Some(chars) => {
            let text = string_of(&chars);
            let normalized = normalize_raylib_text(text.as_str());
            let bytes = str_bytes(normalized.as_str());
            if contains_byte(&bytes, 0) || bytes.len() > MAX_TEXT_BYTES {
                None
            } else {
                Some(bytes)
            }
        },
        None => None,
    }
}

} // verus!
