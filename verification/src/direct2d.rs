//! Direct2D `DrawText` inline replacement. The call's layout rectangle is carried
//! beside the call by the drawing side; the policy reads only the text, the draw
//! options and the measuring mode, and hands them back unchanged.
use vstd::prelude::*;
use crate::domain::{decided_replacement, has_feature, replacement_of, Feature, RenderDecision};
use crate::unicode::{chars_of, decode_utf16, encode_utf16, string_of, utf16, utf16_decode};

verus! {

pub const MAX_TEXT_UNITS: usize = 16 * 1024;

#[derive(Clone, Debug, PartialEq, Eq)]
pub struct Direct2DTextCall {
    units: Vec<u16>,
    options: u32,
    measuring_mode: u32,
    excessive_length: bool,
    reentry_detected: bool,
}

/// The abstract content of a text call.
pub struct CallModel {
    pub units: Seq<u16>,
    pub options: u32,
    pub measuring_mode: u32,
    pub excessive_length: bool,
    pub reentry_detected: bool,
}

impl View for Direct2DTextCall {
    type V = CallModel;

    closed spec fn view(&self) -> CallModel {
        CallModel {
            units: self.units@,
            options: self.options,
            measuring_mode: self.measuring_mode,
            excessive_length: self.excessive_length,
            reentry_detected: self.reentry_detected,
        }
    }
}

impl Direct2DTextCall {
    pub fn utf16(text: &str, options: u32, measuring_mode: u32) -> (r: Self)
        ensures
            r@ == (CallModel {
                units: utf16(text@),
                options,
                measuring_mode,
                excessive_length: false,
                reentry_detected: false,
            }),
    {
        let chars = chars_of(text);
        Direct2DTextCall {
            units: encode_utf16(&chars),
            options,
            measuring_mode,
            excessive_length: false,
            reentry_detected: false,
        }
    }

    /// A call holding one unpaired surrogate.
    pub fn invalid_utf16(options: u32, measuring_mode: u32) -> (r: Self)
        ensures
            r@ == (CallModel {
                units: seq![0xd800u16],
                options,
                measuring_mode,
                excessive_length: false,
                reentry_detected: false,
            }),
    {
        let mut units: Vec<u16> = Vec::new();
        units.push(0xd800);
        Direct2DTextCall { units, options, measuring_mode, excessive_length: false, reentry_detected: false }
    }

    pub fn with_excessive_length(self) -> (r: Self)
        ensures
            r@ == (CallModel { excessive_length: true, ..self@ }),
    {
        Direct2DTextCall { excessive_length: true, ..self }
    }

    pub fn with_reentry_detected(self) -> (r: Self)
        ensures
            r@ == (CallModel { reentry_detected: true, ..self@ }),
    {
        Direct2DTextCall { reentry_detected: true, ..self }
    }
}

/// The text call as it is drawn.
#[derive(Clone, Debug, PartialEq, Eq)]
pub struct PreparedDirect2DText {
    units: Vec<u16>,
    text: Option<String>,
    options: u32,
    measuring_mode: u32,
    original: bool,
}

pub struct PreparedModel {
    pub units: Seq<u16>,
    pub text: Option<Seq<char>>,
    pub options: u32,
    pub measuring_mode: u32,
    pub original: bool,
}

impl View for PreparedDirect2DText {
    type V = PreparedModel;

    closed spec fn view(&self) -> PreparedModel {
        PreparedModel {
            units: self.units@,
            text: match self.text {
                Some(t) => Some(t@),
                None => None,
            },
            options: self.options,
            measuring_mode: self.measuring_mode,
            original: self.original,
        }
    }
}

impl PreparedDirect2DText {
    pub fn units(&self) -> (r: &[u16])
        ensures
            r@ == self@.units,
    {
        self.units.as_slice()
    }

    pub fn text(&self) -> (r: Option<&str>)
        ensures
            match r {
                Some(s) => self@.text == Some(s@),
                None => self@.text is None,
            },
    {
        match &self.text {
            Some(s) => Some(s.as_str()),
            None => None,
        }
    }

    pub fn options(&self) -> (r: u32)
        ensures
            r == self@.options,
    {
        self.options
    }

    pub fn measuring_mode(&self) -> (r: u32)
        ensures
            r == self@.measuring_mode,
    {
        self.measuring_mode
    }

    pub fn is_original(&self) -> (r: bool)
        ensures
            r == self@.original,
    {
        self.original
    }
}

#[derive(Clone, Copy, Debug, PartialEq, Eq)]
pub struct Direct2DDrawTextAdapter {
    text_observe: bool,
    text_replace: bool,
}

/// The source text the host is asked about, or `None` when the call passes through.
pub open spec fn consulted_source(observe: bool, replace: bool, call: CallModel) -> Option<Seq<char>> {
    if (!observe && !replace) || call.excessive_length || call.reentry_detected
        || call.units.len() > MAX_TEXT_UNITS {
        None
    } else {
        utf16_decode(call.units)
    }
}

/// The call that is drawn for a call and the host's decision (`None`: no usable decision).
/// Unlike the layout path, an empty replacement is drawn as decided.
pub open spec fn prepared_text(observe: bool, replace: bool, call: CallModel, decision: Option<RenderDecision>) -> PreparedModel {
    let original = PreparedModel {
        units: call.units,
        text: utf16_decode(call.units),
        options: call.options,
        measuring_mode: call.measuring_mode,
        original: true,
    };
    if consulted_source(observe, replace, call) is None {
        original
    } else {
        match decided_replacement(decision) {
            Some(t) => if replace {
                PreparedModel { units: utf16(t), text: Some(t), original: false, ..original }
            } else {
                original
            },
            None => original,
        }
    }
}

impl Direct2DDrawTextAdapter {
    pub closed spec fn spec_observe(&self) -> bool {
        self.text_observe
    }

    pub closed spec fn spec_replace(&self) -> bool {
        self.text_replace
    }

    pub fn new() -> (r: Self)
        ensures
            r.spec_observe(),
            r.spec_replace(),
    {
        Direct2DDrawTextAdapter { text_observe: true, text_replace: true }
    }

    /// The adapter for the features that activation granted.
    pub fn with_active_features(active: &[Feature]) -> (r: Self)
        ensures
            r.spec_observe() == active@.contains(Feature::TextObserve),
            r.spec_replace() == active@.contains(Feature::TextReplace),
    {
        Direct2DDrawTextAdapter {
            text_observe: has_feature(active, Feature::TextObserve),
            text_replace: has_feature(active, Feature::TextReplace),
        }
    }

    /// The source text to ask the host about; `None` means draw the original at once.
    pub fn decision_source(&self, call: &Direct2DTextCall) -> (r: Option<String>)
        ensures
            match r {
                Some(s) => consulted_source(self.spec_observe(), self.spec_replace(), call@) == Some(s@),
                None => consulted_source(self.spec_observe(), self.spec_replace(), call@) is None,
            },
    {
        if (!self.text_observe && !self.text_replace) || call.excessive_length || call.reentry_detected
            || call.units.len() > MAX_TEXT_UNITS {
            return None;
        }
        match decode_utf16(&call.units) {
            Some(v) => Some(string_of(&v)),
            None => None,
        }
    }

    /// The call to draw, given the host's decision (`None` when it failed or was not asked).
    pub fn prepare_with(&self, call: Direct2DTextCall, decision: Option<RenderDecision>) -> (r: PreparedDirect2DText)
        ensures
            r@ == prepared_text(self.spec_observe(), self.spec_replace(), call@, decision),
    {
        let source = self.decision_source(&call);
        let decoded = decode_utf16(&call.units);
        let text = match &decoded {
            Some(v) => Some(string_of(v)),
            None => None,
        };
        let options = call.options;
        let measuring_mode = call.measuring_mode;
        if source.is_none() {
            return PreparedDirect2DText { units: call.units, text, options, measuring_mode, original: true };
        }
        match replacement_of(&decision) {
            Some(t) => {
                if self.text_replace {
                    let chars = chars_of(t.as_str());
                    PreparedDirect2DText {
                        units: encode_utf16(&chars),
                        text: Some(string_of(&chars)),
                        options,
                        measuring_mode,
                        original: false,
                    }
                } else {
                    PreparedDirect2DText { units: call.units, text, options, measuring_mode, original: true }
                }
            },
            None => PreparedDirect2DText { units: call.units, text, options, measuring_mode, original: true },
        }
    }
}

impl Default for Direct2DDrawTextAdapter {
    fn default() -> (r: Self)
        ensures
            r.spec_observe(),
            r.spec_replace(),
    {
        Self::new()
    }
}

} // verus!
