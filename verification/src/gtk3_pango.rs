//! GTK 3 `gtk_render_layout` draw-time replacement: only layouts without attributes,
//! or with attributes that cover the whole text, are replaced.
use vstd::prelude::*;
use crate::chars::{contains_byte, copy_range, str_bytes, utf8_chars, utf8_str};
use crate::domain::{decided_replacement, has_feature, replacement_of, Feature, RenderDecision};
use crate::unicode::{chars_of, string_of};

verus! {

pub const MAX_TEXT_BYTES: usize = 64 * 1024;

#[derive(Clone, Copy, Debug, PartialEq, Eq, Structural)]
pub enum PangoAttributeProfile {
    NoAttributes,
    FullTextOnly,
    LocalRanges,
    Unknown,
}

#[derive(Clone, Debug, PartialEq, Eq)]
pub struct Gtk3PangoCall {
    bytes: Vec<u8>,
    attributes: PangoAttributeProfile,
    excessive_length: bool,
    reentry_detected: bool,
}

/// The abstract content of a layout call.
pub struct CallModel {
    pub bytes: Seq<u8>,
    pub attributes: PangoAttributeProfile,
    pub excessive_length: bool,
    pub reentry_detected: bool,
}

impl View for Gtk3PangoCall {
    type V = CallModel;

    closed spec fn view(&self) -> CallModel {
        CallModel {
            bytes: self.bytes@,
            attributes: self.attributes,
            excessive_length: self.excessive_length,
            reentry_detected: self.reentry_detected,
        }
    }
}

impl Gtk3PangoCall {
    pub fn utf8(text: &str, attributes: PangoAttributeProfile) -> (r: Self)
        ensures
            r@ == (CallModel {
                bytes: vstd::utf8::encode_utf8(text@),
                attributes,
                excessive_length: false,
                reentry_detected: false,
            }),
    {
        Gtk3PangoCall { bytes: str_bytes(text), attributes, excessive_length: false, reentry_detected: false }
    }

    /// A call holding the bytes the host passed, which need not be UTF-8.
    pub fn bytes(bytes: Vec<u8>, attributes: PangoAttributeProfile) -> (r: Self)
        ensures
            r@ == (CallModel { bytes: bytes@, attributes, excessive_length: false, reentry_detected: false }),
    {
        Gtk3PangoCall { bytes, attributes, excessive_length: false, reentry_detected: false }
    }

    pub fn with_excessive_length(self) -> (r: Self)
        ensures
            r@ == (CallModel { excessive_length: true, ..self@ }),
    {
        Gtk3PangoCall { excessive_length: true, ..self }
    }

    pub fn with_reentry_detected(self) -> (r: Self)
        ensures
            r@ == (CallModel { reentry_detected: true, ..self@ }),
    {
        Gtk3PangoCall { reentry_detected: true, ..self }
    }
}

/// The layout as it is drawn.
#[derive(Clone, Debug, PartialEq, Eq)]
pub struct PreparedGtk3PangoCall {
    bytes: Vec<u8>,
    text: Option<String>,
    original: bool,
}

pub struct PreparedModel {
    pub bytes: Seq<u8>,
    pub text: Option<Seq<char>>,
    pub original: bool,
}

impl View for PreparedGtk3PangoCall {
    type V = PreparedModel;

    closed spec fn view(&self) -> PreparedModel {
        PreparedModel {
            bytes: self.bytes@,
            text: match self.text {
                Some(t) => Some(t@),
                None => None,
            },
            original: self.original,
        }
    }
}

impl PreparedGtk3PangoCall {
    pub fn bytes(&self) -> (r: &[u8])
        ensures
            r@ == self@.bytes,
    {
        self.bytes.as_slice()
    }

    pub fn text(&self) -> (r: Option<&str>)
        ensures
            match r {
                Some(s) => self@.text == Some(s@),
                None => self@.text is None,
            },
    {
        match &self.text {
            Some(s) => Some(s.as_str()),
            None => None,
        }
    }

    pub fn is_original(&self) -> (r: bool)
        ensures
            r == self@.original,
    {
        self.original
    }
}

#[derive(Clone, Copy, Debug, PartialEq, Eq)]
pub struct Gtk3PangoInlineAdapter {
    text_replace: bool,
}

/// The source text the host is asked about, or `None` when the layout passes through.
pub open spec fn consulted_source(call: CallModel) -> Option<Seq<char>> {
    if call.excessive_length || call.reentry_detected || call.bytes.len() > MAX_TEXT_BYTES
        || call.attributes == PangoAttributeProfile::LocalRanges
        || call.attributes == PangoAttributeProfile::Unknown {
        None
    } else {
        utf8_chars(call.bytes)
    }
}

/// The layout that is drawn for a call and the host's decision (`None`: no usable decision).
pub open spec fn prepared_layout(replace: bool, call: CallModel, decision: Option<RenderDecision>) -> PreparedModel {
    let original = PreparedModel { bytes: call.bytes, text: utf8_chars(call.bytes), original: true };
    if consulted_source(call) is None {
        original
    } else {
        match decided_replacement(decision) {
            Some(t) => {
                let b = vstd::utf8::encode_utf8(t);
                if replace && t.len() > 0 && !b.contains(0u8) {
                    PreparedModel { bytes: b, text: Some(t), original: false }
                } else {
                    original
                }
            },
            None => original,
        }
    }
}

impl Gtk3PangoInlineAdapter {
    pub closed spec fn spec_replace(&self) -> bool {
        self.text_replace
    }

    pub fn new() -> (r: Self)
        ensures
            r.spec_replace(),
    {
        Gtk3PangoInlineAdapter { text_replace: true }
    }

    /// The adapter for the features that activation granted.
    pub fn with_active_features(active: &[Feature]) -> (r: Self)
        ensures
            r.spec_replace() == active@.contains(Feature::TextReplace),
    {
        Gtk3PangoInlineAdapter { text_replace: has_feature(active, Feature::TextReplace) }
    }

    /// The source text to ask the host about; `None` means draw the original at once.
    pub fn decision_source(&self, call: &Gtk3PangoCall) -> (r: Option<String>)
        ensures
            match r {
                Some(s) => consulted_source(call@) == Some(s@),
                None => consulted_source(call@) is None,
            },
    {
        if call.excessive_length || call.reentry_detected || call.bytes.len() > MAX_TEXT_BYTES
            || call.attributes == PangoAttributeProfile::LocalRanges
            || call.attributes == PangoAttributeProfile::Unknown {
            return None;
        }
        match utf8_str(call.bytes.as_slice()) {
            Some(s) => {
                let chars = chars_of(s);
                Some(string_of(&chars))
            },
            None => None,
        }
    }

    /// The layout to draw, given the host's decision (`None` when it failed or was not asked).
    pub fn prepare_with(&self, call: Gtk3PangoCall, decision: Option<RenderDecision>) -> (r: PreparedGtk3PangoCall)
        ensures
            r@ == prepared_layout(self.spec_replace(), call@, decision),
    {
        let source = self.decision_source(&call);
        let text = match utf8_str(call.bytes.as_slice()) {
            Some(s) => {
                let chars = chars_of(s);
                Some(string_of(&chars))
            },
            None => None,
        };
        if source.is_none() {
            return PreparedGtk3PangoCall { bytes: call.bytes, text, original: true };
        }
        match replacement_of(&decision) {
            Some(t) => {
                let chars = chars_of(t.as_str());
                let bytes = str_bytes(t.as_str());
                if self.text_replace && chars.len() > 0 && !contains_byte(&bytes, 0) {
                    PreparedGtk3PangoCall { bytes, text: Some(string_of(&chars)), original: false }
                } else {
                    PreparedGtk3PangoCall { bytes: call.bytes, text, original: true }
                }
            },
            None => PreparedGtk3PangoCall { bytes: call.bytes, text, original: true },
        }
    }
}

/// The drawn layout is a replacement exactly when the call is one the host is asked about
/// (no excessive length or reentry, at most `MAX_TEXT_BYTES` bytes, no or only whole-text
/// attributes, valid UTF-8), the host decided a replacement, text replacement is active, and
/// the replacement is non-empty and free of NUL bytes. A replacement draws its own bytes and
/// text; otherwise the host's bytes are drawn unchanged, with their text when they are UTF-8.
pub proof fn law_layout_is_replaced_exactly_when_decided(replace: bool, call: CallModel, decision: Option<RenderDecision>)
    ensures
        ({
            let p = prepared_layout(replace, call, decision);
            &&& !p.original <==> (!call.excessive_length && !call.reentry_detected && call.bytes.len() <= MAX_TEXT_BYTES
                && (call.attributes == PangoAttributeProfile::NoAttributes || call.attributes
                == PangoAttributeProfile::FullTextOnly) && utf8_chars(call.bytes) is Some
                && decided_replacement(decision) is Some && replace && decided_replacement(decision)->0.len() > 0
                && !vstd::utf8::encode_utf8(decided_replacement(decision)->0).contains(0u8))
            &&& !p.original ==> p.bytes == vstd::utf8::encode_utf8(decided_replacement(decision)->0) && p.text
                == decided_replacement(decision)
            &&& p.original ==> p.bytes == call.bytes && p.text == utf8_chars(call.bytes)
        }),
{
}

impl Default for Gtk3PangoInlineAdapter {
    fn default() -> (r: Self)
        ensures
            r.spec_replace(),
    {
        Self::new()
    }
}

} // verus!
