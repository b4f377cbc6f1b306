//! SideFX CV `CV_PaintBuffer::textWrappedInBox` draw-time replacement.
use vstd::prelude::*;

use crate::domain::{has_feature, Feature, RenderDecision};
use crate::inline_bytes::{byte_replacement, byte_source, prepare_bytes, utf8_decision_source};


verus! {

#[derive(Clone, Copy, Debug, PartialEq, Eq)]
pub struct SidefxCvPaintBufferInlineAdapter {
    text_replace: bool,
}

impl SidefxCvPaintBufferInlineAdapter {
    pub closed spec fn spec_replace(&self) -> bool {
        self.text_replace
    }

    pub fn new() -> (r: Self)
        ensures
            r.spec_replace(),
    {
        SidefxCvPaintBufferInlineAdapter { text_replace: true }
    }

    /// The adapter for the features that activation granted.
    pub fn with_active_features(active: &[Feature]) -> (r: Self)
        ensures
            r.spec_replace() == active@.contains(Feature::TextReplace),
    {
        SidefxCvPaintBufferInlineAdapter { text_replace: has_feature(active, Feature::TextReplace) }
    }

    /// The source text to ask the host about; `None` means draw the original at once.
    pub fn decision_source(&self, source: &[u8]) -> (r: Option<String>)
        ensures
            match r {
                Some(s) => byte_source(source@) == Some(s@),
                None => byte_source(source@) is None,
            },
    {
        utf8_decision_source(source)
    }

    /// The bytes to draw, given the host's decision (`None` when it failed or was not asked);
    /// `None` draws the original.
    pub fn prepare_with(self, source: &[u8], decision: Option<RenderDecision>) -> (r: Option<Vec<u8>>)
        ensures
            match r {
                Some(b) => byte_replacement(self.spec_replace(), source@, decision) == Some(b@),
                None => byte_replacement(self.spec_replace(), source@, decision) is None,
            },
    {
        prepare_bytes(self.text_replace, source, decision)
    }
}

impl Default for SidefxCvPaintBufferInlineAdapter {
    fn default() -> (r: Self)
        ensures
            r.spec_replace(),
    {
        Self::new()
    }
}

} // verus!
