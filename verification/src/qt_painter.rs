//! Qt `QPainter::drawText` inline replacement for the point, flags-rectangle and
//! option-rectangle draw shapes; failures draw the original text exactly once.
use vstd::prelude::*;
use crate::domain::{decided_replacement, has_feature, replacement_of, Feature, RenderDecision};
use crate::unicode::{chars_of, decode_utf16, encode_utf16, string_of, utf16, utf16_decode};

verus! {

pub const MAX_TEXT_UNITS: usize = 16 * 1024;

#[derive(Clone, Copy, Debug, PartialEq, Eq, Structural)]
pub enum QtDrawTextKind {
    Point,
    RectangleFlags,
    RectangleOption,
}

#[derive(Clone, Debug, PartialEq, Eq)]
pub struct QtPainterCall {
    units: Vec<u16>,
    kind: QtDrawTextKind,
    excessive_length: bool,
    reentry_detected: bool,
}

/// The abstract content of a text call.
pub struct CallModel {
    pub units: Seq<u16>,
    pub kind: QtDrawTextKind,
    pub excessive_length: bool,
    pub reentry_detected: bool,
}

impl View for QtPainterCall {
    type V = CallModel;

    closed spec fn view(&self) -> CallModel {
        CallModel {
            units: self.units@,
            kind: self.kind,
            excessive_length: self.excessive_length,
            reentry_detected: self.reentry_detected,
        }
    }
}

impl QtPainterCall {
    pub fn utf16(text: &str, kind: QtDrawTextKind) -> (r: Self)
        ensures
            r@ == (CallModel { units: utf16(text@), kind, excessive_length: false, reentry_detected: false }),
    {
        let chars = chars_of(text);
        QtPainterCall {
            units: encode_utf16(&chars),
            kind,
            excessive_length: false,
            reentry_detected: false,
        }
    }

    /// A call holding the given UTF-16 units as the host passed them.
    pub fn units(units: Vec<u16>, kind: QtDrawTextKind) -> (r: Self)
        ensures
            r@ == (CallModel { units: units@, kind, excessive_length: false, reentry_detected: false }),
    {
        QtPainterCall { units, kind, excessive_length: false, reentry_detected: false }
    }

    pub fn with_excessive_length(self) -> (r: Self)
        ensures
            r@ == (CallModel { excessive_length: true, ..self@ }),
    {
        QtPainterCall { excessive_length: true, ..self }
    }

    pub fn with_reentry_detected(self) -> (r: Self)
        ensures
            r@ == (CallModel { reentry_detected: true, ..self@ }),
    {
        QtPainterCall { reentry_detected: true, ..self }
    }
}

/// The layout as it is drawn.
#[derive(Clone, Debug, PartialEq, Eq)]
pub struct PreparedQtPainterCall {
    units: Vec<u16>,
    text: Option<String>,
    kind: QtDrawTextKind,
    original: bool,
}

pub struct PreparedModel {
    pub units: Seq<u16>,
    pub text: Option<Seq<char>>,
    pub kind: QtDrawTextKind,
    pub original: bool,
}

impl View for PreparedQtPainterCall {
    type V = PreparedModel;

    closed spec fn view(&self) -> PreparedModel {
        PreparedModel {
            units: self.units@,
            text: match self.text {
                Some(t) => Some(t@),
                None => None,
            },
            kind: self.kind,
            original: self.original,
        }
    }
}

impl PreparedQtPainterCall {
    pub fn units(&self) -> (r: &[u16])
        ensures
            r@ == self@.units,
    {
        self.units.as_slice()
    }

    pub fn text(&self) -> (r: Option<&str>)
        ensures
            match r {
                Some(s) => self@.text == Some(s@),
                None => self@.text is None,
            },
    {
        match &self.text {
            Some(s) => Some(s.as_str()),
            None => None,
        }
    }

    pub fn kind(&self) -> (r: QtDrawTextKind)
        ensures
            r == self@.kind,
    {
        self.kind
    }

    pub fn is_original(&self) -> (r: bool)
        ensures
            r == self@.original,
    {
        self.original
    }
}

#[derive(Clone, Copy, Debug, PartialEq, Eq)]
pub struct QtPainterInlineAdapter {
    text_replace: bool,
}

/// The source text the host is asked about, or `None` when the call passes through.
pub open spec fn consulted_source(call: CallModel) -> Option<Seq<char>> {
    if call.excessive_length || call.reentry_detected || call.units.len() > MAX_TEXT_UNITS {
        None
    } else {
        utf16_decode(call.units)
    }
}

/// The call that is drawn, given the host's decision (`None`: no usable decision).
pub open spec fn prepared_call(replace: bool, call: CallModel, decision: Option<RenderDecision>) -> PreparedModel {
    let original = PreparedModel { units: call.units, text: utf16_decode(call.units), kind: call.kind, original: true };
    if consulted_source(call) is None {
        original
    } else {
        match decided_replacement(decision) {
            Some(t) => if replace {
                PreparedModel { units: utf16(t), text: Some(t), kind: call.kind, original: false }
            } else {
                original
            },
            None => original,
        }
    }
}

impl QtPainterInlineAdapter {
    pub closed spec fn spec_replace(&self) -> bool {
        self.text_replace
    }

    pub fn new() -> (r: Self)
        ensures
            r.spec_replace(),
    {
        QtPainterInlineAdapter { text_replace: true }
    }

    /// The adapter for the features that activation granted.
    pub fn with_active_features(active: &[Feature]) -> (r: Self)
        ensures
            r.spec_replace() == active@.contains(Feature::TextReplace),
    {
        QtPainterInlineAdapter { text_replace: has_feature(active, Feature::TextReplace) }
    }

    /// The source text to ask the host about; `None` means draw the original at once.
    pub fn decision_source(&self, call: &QtPainterCall) -> (r: Option<String>)
        ensures
            match r {
                Some(s) => consulted_source(call@) == Some(s@),
                None => consulted_source(call@) is None,
            },
    {
        if call.excessive_length || call.reentry_detected || call.units.len() > MAX_TEXT_UNITS {
            return None;
        }
        match decode_utf16(&call.units) {
            Some(v) => Some(string_of(&v)),
            None => None,
        }
    }

    /// The call to draw, given the host's decision (`None` when it failed or was not asked).
    pub fn prepare_with(&self, call: QtPainterCall, decision: Option<RenderDecision>) -> (r: PreparedQtPainterCall)
        ensures
            r@ == prepared_call(self.spec_replace(), call@, decision),
    {
        let source = self.decision_source(&call);
        let decoded = decode_utf16(&call.units);
        let text = match &decoded {
            Some(v) => Some(string_of(v)),
            None => None,
        };
        let kind = call.kind;
        if source.is_none() {
            return PreparedQtPainterCall { units: call.units, text, kind, original: true };
        }
        match replacement_of(&decision) {
            Some(t) => {
                let chars = chars_of(t.as_str());
                if self.text_replace {
                    PreparedQtPainterCall {
                        units: encode_utf16(&chars),
                        text: Some(string_of(&chars)),
                        kind,
                        original: false,
                    }
                } else {
                    PreparedQtPainterCall { units: call.units, text, kind, original: true }
                }
            },
            None => PreparedQtPainterCall { units: call.units, text, kind, original: true },
        }
    }
}

impl Default for QtPainterInlineAdapter {
    fn default() -> (r: Self)
        ensures
            r.spec_replace(),
    {
        Self::new()
    }
}

} // verus!
