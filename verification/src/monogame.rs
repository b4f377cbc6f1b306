//! MonoGame `SpriteBatch.DrawString` / `SpriteFont.MeasureString` replacement policy:
//! bounded UTF-16 in and out, and a replacement only when the drawing font has a
//! glyph for every character of it.
use vstd::prelude::*;
use crate::chars::contains_unit;
use crate::domain::{decided_replacement, has_feature, replacement_of, Feature, RenderDecision};
use crate::unicode::{chars_of, decode_utf16, encode_utf16, string_of, utf16, utf16_decode};

verus! {

pub const MAX_TEXT_UNITS: usize = 64 * 1024;

#[derive(Clone, Copy, Debug, PartialEq, Eq)]
pub struct MonoGameAdapter {
    text_replace: bool,
}

/// The source text the host is asked about, or `None` when the call passes through.
pub open spec fn string_source(source: Seq<u16>) -> Option<Seq<char>> {
    if source.len() == 0 || source.len() > MAX_TEXT_UNITS || source.contains(0u16) {
        None
    } else {
        utf16_decode(source)
    }
}

/// The decided text that may replace the source, before glyph coverage is checked.
pub open spec fn admissible_replacement(replace: bool, source: Seq<u16>, decision: Option<RenderDecision>) -> Option<Seq<char>> {
    if string_source(source) is None {
        None
    } else {
        match decided_replacement(decision) {
            Some(t) => if replace && t.len() > 0 && !utf16(t).contains(0u16) && utf16(t).len() <= MAX_TEXT_UNITS {
                Some(t)
            } else {
                None
            },
            None => None,
        }
    }
}

impl MonoGameAdapter {
    pub closed spec fn spec_replace(&self) -> bool {
        self.text_replace
    }

    /// The adapter for the features that activation granted.
    pub fn with_active_features(active: &[Feature]) -> (r: Self)
        ensures
            r.spec_replace() == active@.contains(Feature::TextReplace),
    {
        MonoGameAdapter { text_replace: has_feature(active, Feature::TextReplace) }
    }

    /// The source text to ask the host about; `None` means the call is left untouched.
    pub fn decision_source(&self, source: &[u16]) -> (r: Option<String>)
        ensures
            match r {
                Some(s) => string_source(source@) == Some(s@),
                None => string_source(source@) is None,
            },
    {
        if source.len() == 0 || source.len() > MAX_TEXT_UNITS || contains_unit(source, 0) {
            return None;
        }
        match decode_utf16(source) {
            Some(v) => Some(string_of(&v)),
            None => None,
        }
    }

    /// The UTF-16 text to draw in place of `source`, or `None` to leave the call as it is.
    /// `has_glyph` tells whether the drawing font has a glyph for a character.
    #[verifier::loop_isolation(false)]
    pub fn prepare_with<F: Fn(char) -> bool>(self, source: &[u16], has_glyph: F, decision: Option<RenderDecision>) -> (r: Option<Vec<u16>>)
        requires
            forall|c: char| has_glyph.requires((c,)),
        ensures
            r matches Some(u) ==> {
                &&& admissible_replacement(self.spec_replace(), source@, decision) matches Some(t)
                &&& u@ == utf16(t)
                &&& forall|i: int| 0 <= i < t.len() ==> has_glyph.ensures((t[i],), true)
            },
            r is None ==> {
                ||| admissible_replacement(self.spec_replace(), source@, decision) is None
                ||| admissible_replacement(self.spec_replace(), source@, decision) matches Some(t)
                    && exists|i: int| 0 <= i < t.len() && has_glyph.ensures((#[trigger] t[i],), false)
            },
    {
        if self.decision_source(source).is_none() {
            return None;
        }
        let t = match replacement_of(&decision) {
            Some(t) => t,
            None => return None,
        };
        let chars = chars_of(t.as_str());
        if !self.text_replace || chars.len() == 0 {
            return None;
        }
        let mut i: usize = 0;
        while i < chars.len()
            invariant
                i <= chars.len(),
                forall|c: char| has_glyph.requires((c,)),
                forall|k: int| 0 <= k < i ==> has_glyph.ensures((chars@[k],), true),
            decreases chars.len() - i,
        {
            let covered = has_glyph(chars[i]);
            if !covered {
                let units = encode_utf16(&chars);
                if contains_unit(&units, 0) || units.len() > MAX_TEXT_UNITS {
                    return None;
                }
                assert(has_glyph.ensures((chars@[i as int],), false));
                return None;
            }
            i += 1;
        }
        let units = encode_utf16(&chars);
        if contains_unit(&units, 0) || units.len() > MAX_TEXT_UNITS {
            return None;
        }
        Some(units)
    }
}

impl Default for MonoGameAdapter {
    fn default() -> (r: Self)
        ensures
            r.spec_replace(),
    {
        MonoGameAdapter { text_replace: true }
    }
}

} // verus!
