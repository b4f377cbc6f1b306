//! State owned by a retained Qt Quick label, which labels are translated, and what an
//! update pass does with each label.
use vstd::prelude::*;
use crate::chars::{contains_char, str_eq};
use crate::retained::{
    after_clear, after_host_write, after_mark, after_observe, restored, RetainedModel,
};
use crate::unicode::{all_whitespace, chars_of, is_blank, utf16_len, utf16_len_exceeds};

verus! {

pub const MAX_TEXT_UNITS: usize = 16_384;

/// A host write is authoritative even when it happens to equal our last translation.
#[derive(Clone, Debug)]
pub struct LabelText {
    source: String,
    written: Option<String>,
}

impl View for LabelText {
    type V = RetainedModel;

    closed spec fn view(&self) -> RetainedModel {
        RetainedModel {
            source: self.source@,
            written: match self.written {
                Some(w) => Some(w@),
                None => None,
            },
        }
    }
}

impl LabelText {
    pub fn new(source: String) -> (r: Self)
        ensures
            r@ == (RetainedModel { source: source@, written: None }),
    {
        LabelText { source, written: None }
    }

    pub fn source(&self) -> (r: &str)
        ensures
            r@ == self@.source,
    {
        self.source.as_str()
    }

    pub fn host_write(&mut self, source: String)
        ensures
            final(self)@ == after_host_write(old(self)@, source@),
    {
        self.source = source;
        self.written = None;
    }

    /// Adopts `current` as the source unless it is our own write or the known source.
    pub fn observe(&mut self, current: &str)
        ensures
            final(self)@ == after_observe(old(self)@, current@),
    {
        let ours = match &self.written {
            Some(w) => str_eq(w.as_str(), current),
            None => false,
        };
        if !ours && !str_eq(self.source.as_str(), current) {
            self.host_write(current.to_owned());
        }
    }

    pub fn mark_written(&mut self, value: String)
        ensures
            final(self)@ == after_mark(old(self)@, value@),
    {
        self.written = Some(value);
    }

    pub fn clear_written(&mut self)
        ensures
            final(self)@ == after_clear(old(self)@),
    {
        self.written = None;
    }

    /// The source to put back, only when the label still shows exactly our last write.
    pub fn restore(&self, current: &str) -> (r: Option<&str>)
        ensures
            match r {
                Some(s) => restored(self@, current@) == Some(s@),
                None => restored(self@, current@) is None,
            },
    {
        match &self.written {
            Some(w) => {
                if str_eq(w.as_str(), current) {
                    Some(self.source.as_str())
                } else {
                    None
                }
            },
            None => None,
        }
    }
}

/// Plain text (format 0) or AutoText without markup (format 2), non-blank and bounded.
pub open spec fn label_eligible(source: Seq<char>, format: i32) -> bool {
    !all_whitespace(source) && utf16_len(source) <= MAX_TEXT_UNITS && (format == 0 || format == 2)
        && (format == 0 || !source.contains('<'))
}

/// Only plain text and conservative AutoText labels are eligible.
pub fn eligible_text(source: &str, format: i32) -> (r: bool)
    ensures
        r == label_eligible(source@, format),
{
    let chars = chars_of(source);
    !is_blank(&chars) && !utf16_len_exceeds(&chars, MAX_TEXT_UNITS) && (format == 0 || format == 2)
        && (format == 0 || !contains_char(&chars, '<'))
}

/// A `QQuickText` item as an update pass sees it.
#[derive(Clone, Debug, PartialEq, Eq)]
pub struct Label {
    pub object: usize,
    pub source: String,
    pub eligible: bool,
}

/// What an update pass does with one label.
#[derive(Clone, Debug, PartialEq, Eq)]
pub enum LabelAction {
    Nothing,
    /// Write the replacement and record it as our write.
    Write(String),
    /// Put the source back and forget our write.
    Restore(String),
}

pub enum LabelPlan {
    Nothing,
    Write(Seq<char>),
    Restore(Seq<char>),
}

pub open spec fn label_action_view(a: LabelAction) -> LabelPlan {
    match a {
        LabelAction::Nothing => LabelPlan::Nothing,
        LabelAction::Write(s) => LabelPlan::Write(s@),
        LabelAction::Restore(s) => LabelPlan::Restore(s@),
    }
}

/// The action for a label tracked as `m` that shows `current`; `desired` is the host's
/// replacement for the source (looked up only for eligible labels).
pub open spec fn label_plan(m: RetainedModel, current: Seq<char>, desired: Option<Seq<char>>) -> LabelPlan {
    match desired {
        Some(d) => if d != current { LabelPlan::Write(d) } else { LabelPlan::Nothing },
        None => match restored(m, current) {
            Some(s) => LabelPlan::Restore(s),
            None => LabelPlan::Nothing,
        },
    }
}

pub fn plan_label_update(text: &LabelText, current: &str, desired: Option<String>) -> (r: LabelAction)
    ensures
        label_action_view(r) == label_plan(text@, current@, match desired { Some(d) => Some(d@), None => None }),
{
    match desired {
        Some(d) => {
            if str_eq(d.as_str(), current) {
                LabelAction::Nothing
            } else {
                LabelAction::Write(d)
            }
        },
        None => match text.restore(current) {
            Some(s) => {
                let c = chars_of(s);
                LabelAction::Restore(crate::unicode::string_of(&c))
            },
            None => LabelAction::Nothing,
        },
    }
}

/// Without a replacement, an update pass only ever puts back the source over our own write.
pub proof fn law_label_without_replacement_only_restores(m: RetainedModel, current: Seq<char>)
    ensures
        !(label_plan(m, current, None) is Write),
        label_plan(m, current, None) is Restore ==> m.written == Some(current)
            && label_plan(m, current, None) == LabelPlan::Restore(m.source),
{
}

} // verus!
