//! DirectWrite `TextLayout` draw-time replacement: only uniformly formatted layouts
//! are replaced; every other case draws the original layout exactly once.
use vstd::prelude::*;
use crate::domain::{decided_replacement, has_feature, replacement_of, Feature, RenderDecision};
use crate::unicode::{chars_of, decode_utf16, encode_utf16, string_of, utf16, utf16_decode};

verus! {

pub const MAX_TEXT_UNITS: usize = 16 * 1024;

#[derive(Clone, Copy, Debug, PartialEq, Eq, Structural)]
pub enum TextLayoutFormatting {
    Uniform,
    LocalRanges,
    InlineObject,
    Unknown,
}

#[derive(Clone, Debug, PartialEq, Eq)]
pub struct DirectWriteTextLayoutCall {
    units: Vec<u16>,
    formatting: TextLayoutFormatting,
    excessive_length: bool,
    reentry_detected: bool,
}

/// The abstract content of a text call.
pub struct CallModel {
    pub units: Seq<u16>,
    pub formatting: TextLayoutFormatting,
    pub excessive_length: bool,
    pub reentry_detected: bool,
}

impl View for DirectWriteTextLayoutCall {
    type V = CallModel;

    closed spec fn view(&self) -> CallModel {
        CallModel {
            units: self.units@,
            formatting: self.formatting,
            excessive_length: self.excessive_length,
            reentry_detected: self.reentry_detected,
        }
    }
}

impl DirectWriteTextLayoutCall {
    pub fn utf16(text: &str, formatting: TextLayoutFormatting) -> (r: Self)
        ensures
            r@ == (CallModel { units: utf16(text@), formatting, excessive_length: false, reentry_detected: false }),
    {
        let chars = chars_of(text);
        DirectWriteTextLayoutCall {
            units: encode_utf16(&chars),
            formatting,
            excessive_length: false,
            reentry_detected: false,
        }
    }

    /// A call holding one unpaired surrogate.
    pub fn invalid_utf16(formatting: TextLayoutFormatting) -> (r: Self)
        ensures
            r@ == (CallModel { units: seq![0xd800u16], formatting, excessive_length: false, reentry_detected: false }),
    {
        let mut units: Vec<u16> = Vec::new();
        units.push(0xd800);
        DirectWriteTextLayoutCall { units, formatting, excessive_length: false, reentry_detected: false }
    }

    pub fn with_excessive_length(self) -> (r: Self)
        ensures
            r@ == (CallModel { excessive_length: true, ..self@ }),
    {
        DirectWriteTextLayoutCall { excessive_length: true, ..self }
    }

    pub fn with_reentry_detected(self) -> (r: Self)
        ensures
            r@ == (CallModel { reentry_detected: true, ..self@ }),
    {
        DirectWriteTextLayoutCall { reentry_detected: true, ..self }
    }
}

/// The layout as it is drawn.
#[derive(Clone, Debug, PartialEq, Eq)]
pub struct PreparedDirectWriteTextLayout {
    units: Vec<u16>,
    text: Option<String>,
    original: bool,
}

pub struct PreparedModel {
    pub units: Seq<u16>,
    pub text: Option<Seq<char>>,
    pub original: bool,
}

impl View for PreparedDirectWriteTextLayout {
    type V = PreparedModel;

    closed spec fn view(&self) -> PreparedModel {
        PreparedModel {
            units: self.units@,
            text: match self.text {
                Some(t) => Some(t@),
                None => None,
            },
            original: self.original,
        }
    }
}

impl PreparedDirectWriteTextLayout {
    pub fn units(&self) -> (r: &[u16])
        ensures
            r@ == self@.units,
    {
        self.units.as_slice()
    }

    pub fn text(&self) -> (r: Option<&str>)
        ensures
            match r {
                Some(s) => self@.text == Some(s@),
                None => self@.text is None,
            },
    {
        match &self.text {
            Some(s) => Some(s.as_str()),
            None => None,
        }
    }

    pub fn is_original(&self) -> (r: bool)
        ensures
            r == self@.original,
    {
        self.original
    }
}

#[derive(Clone, Copy, Debug, PartialEq, Eq)]
pub struct DirectWriteTextLayoutAdapter {
    text_observe: bool,
    text_replace: bool,
}

/// The source text the host is asked about, or `None` when the layout passes through.
pub open spec fn consulted_source(observe: bool, replace: bool, call: CallModel) -> Option<Seq<char>> {
    if (!observe && !replace) || call.excessive_length || call.reentry_detected
        || call.units.len() > MAX_TEXT_UNITS {
        None
    } else if replace && call.formatting != TextLayoutFormatting::Uniform {
        None
    } else {
        utf16_decode(call.units)
    }
}

/// The layout that is drawn for a call and the host's decision (`None`: no usable decision).
pub open spec fn prepared_layout(observe: bool, replace: bool, call: CallModel, decision: Option<RenderDecision>) -> PreparedModel {
    let original = PreparedModel { units: call.units, text: utf16_decode(call.units), original: true };
    if consulted_source(observe, replace, call) is None {
        original
    } else {
        match decided_replacement(decision) {
            Some(t) => if replace && t.len() > 0 {
                PreparedModel { units: utf16(t), text: Some(t), original: false }
            } else {
                original
            },
            None => original,
        }
    }
}

impl DirectWriteTextLayoutAdapter {
    pub closed spec fn spec_observe(&self) -> bool {
        self.text_observe
    }

    pub closed spec fn spec_replace(&self) -> bool {
        self.text_replace
    }

    pub fn new() -> (r: Self)
        ensures
            r.spec_observe(),
            r.spec_replace(),
    {
        DirectWriteTextLayoutAdapter { text_observe: true, text_replace: true }
    }

    /// The adapter for the features that activation granted.
    pub fn with_active_features(active: &[Feature]) -> (r: Self)
        ensures
            r.spec_observe() == active@.contains(Feature::TextObserve),
            r.spec_replace() == active@.contains(Feature::TextReplace),
    {
        DirectWriteTextLayoutAdapter {
            text_observe: has_feature(active, Feature::TextObserve),
            text_replace: has_feature(active, Feature::TextReplace),
        }
    }

    /// The source text to ask the host about; `None` means draw the original at once.
    pub fn decision_source(&self, call: &DirectWriteTextLayoutCall) -> (r: Option<String>)
        ensures
            match r {
                Some(s) => consulted_source(self.spec_observe(), self.spec_replace(), call@) == Some(s@),
                None => consulted_source(self.spec_observe(), self.spec_replace(), call@) is None,
            },
    {
        if (!self.text_observe && !self.text_replace) || call.excessive_length || call.reentry_detected
            || call.units.len() > MAX_TEXT_UNITS {
            return None;
        }
        if self.text_replace && call.formatting != TextLayoutFormatting::Uniform {
            return None;
        }
        match decode_utf16(&call.units) {
            Some(v) => Some(string_of(&v)),
            None => None,
        }
    }

    /// The layout to draw, given the host's decision (`None` when it failed or was not asked).
    pub fn prepare_with(&self, call: DirectWriteTextLayoutCall, decision: Option<RenderDecision>) -> (r: PreparedDirectWriteTextLayout)
        ensures
            r@ == prepared_layout(self.spec_observe(), self.spec_replace(), call@, decision),
    {
        let source = self.decision_source(&call);
        let decoded = decode_utf16(&call.units);
        let text = match &decoded {
            Some(v) => Some(string_of(v)),
            None => None,
        };
        if source.is_none() {
            return PreparedDirectWriteTextLayout { units: call.units, text, original: true };
        }
        match replacement_of(&decision) {
            Some(t) => {
                let chars = chars_of(t.as_str());
                if self.text_replace && chars.len() > 0 {
                    PreparedDirectWriteTextLayout {
                        units: encode_utf16(&chars),
                        text: Some(string_of(&chars)),
                        original: false,
                    }
                } else {
                    PreparedDirectWriteTextLayout { units: call.units, text, original: true }
                }
            },
            None => PreparedDirectWriteTextLayout { units: call.units, text, original: true },
        }
    }
}

impl Default for DirectWriteTextLayoutAdapter {
    fn default() -> (r: Self)
        ensures
            r.spec_observe(),
            r.spec_replace(),
    {
        Self::new()
    }
}

} // verus!
