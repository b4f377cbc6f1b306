//! The per-document decisions of the native `QTextDocument::setHtml` adapter: which
//! host answer becomes a replacement, and what a refresh does with each retained
//! document given what it currently shows.
use vstd::prelude::*;
use crate::chars::{chars_eq, copy_range, str_eq};
use crate::qt_text_document::{render_html, DocumentText, HtmlTextTemplate};
use crate::retained::{restored, RetainedModel};
use crate::unicode::{chars_of, decode_utf16, string_of, trim, trim_chars, utf16_decode};

verus! {

/// The replacement a host answer gives for `source`: only a decided, well-formed,
/// non-blank text that differs from the source, while replacement is active.
pub open spec fn document_replacement(status_ok: bool, replace_active: bool, replace_decided: bool, text_len: u32,
    buf: Seq<u16>, source: Seq<char>) -> Option<Seq<char>> {
    if !status_ok || text_len > buf.len() || !replace_active || !replace_decided {
        None
    } else {
        match utf16_decode(buf.take(text_len as int)) {
            Some(t) => if trim(t).len() > 0 && t != source { Some(t) } else { None },
            None => None,
        }
    }
}

pub fn replacement_from_answer(status_ok: bool, replace_active: bool, replace_decided: bool, text_len: u32,
    buf: &[u16], source: &str) -> (r: Option<String>)
    ensures
        match r {
            Some(t) => document_replacement(status_ok, replace_active, replace_decided, text_len, buf@, source@) == Some(t@),
            None => document_replacement(status_ok, replace_active, replace_decided, text_len, buf@, source@) is None,
        },
{
    if !status_ok || text_len as usize > buf.len() || !replace_active || !replace_decided {
        return None;
    }
    let units = copy_range(buf, 0, text_len as usize);
    assert(units@ =~= buf@.take(text_len as int));
    match decode_utf16(&units) {
        Some(t) => {
            let trimmed = trim_chars(&t);
            let s = chars_of(source);
            if trimmed.len() > 0 && !chars_eq(&t, &s) {
                Some(string_of(&t))
            } else {
                None
            }
        },
        None => None,
    }
}

/// What a refresh does with one retained document.
#[derive(Clone, Debug, PartialEq, Eq)]
pub enum DocumentRefresh {
    /// Leave the document as it is.
    Keep,
    /// The host replaced the document's text: stop tracking it.
    Forget,
    /// Write `html`, which shows `visible`, and record `visible` as our write.
    Write { visible: String, html: String },
    /// Put the host's original HTML back and forget our write.
    Restore { html: String },
}

pub enum RefreshPlan {
    Keep,
    Forget,
    Write(Seq<char>, Seq<char>),
    Restore(Seq<char>),
}

pub open spec fn refresh_view(r: DocumentRefresh) -> RefreshPlan {
    match r {
        DocumentRefresh::Keep => RefreshPlan::Keep,
        DocumentRefresh::Forget => RefreshPlan::Forget,
        DocumentRefresh::Write { visible, html } => RefreshPlan::Write(visible@, html@),
        DocumentRefresh::Restore { html } => RefreshPlan::Restore(html@),
    }
}

/// The template rendered with `r`.
pub open spec fn rendered(t: HtmlTextTemplate, r: Seq<char>) -> Option<Seq<char>> {
    render_html(vstd::utf8::encode_utf8(t.spec_original()), t.spec_start(), t.spec_end(), r)
}

/// The refresh of a document tracked as `m` with template `t`, now showing `current`;
/// `desired` is the host's current replacement for the source, if any.
pub open spec fn refresh_plan(m: RetainedModel, t: HtmlTextTemplate, current: Seq<char>, active: bool,
    desired: Option<Seq<char>>) -> RefreshPlan {
    let ours = restored(m, current) is Some;
    if current != m.source && !ours {
        RefreshPlan::Forget
    } else if active && desired is Some {
        let d = desired->0;
        if d == current {
            RefreshPlan::Keep
        } else if rendered(t, d) is Some {
            RefreshPlan::Write(d, rendered(t, d)->0)
        } else if ours {
            RefreshPlan::Restore(t.spec_original())
        } else {
            RefreshPlan::Keep
        }
    } else if ours {
        RefreshPlan::Restore(t.spec_original())
    } else {
        RefreshPlan::Keep
    }
}

pub fn plan_document_refresh(text: &DocumentText, template: &HtmlTextTemplate, current: &str, active: bool,
    desired: Option<String>) -> (r: DocumentRefresh)
    ensures
        refresh_view(r) == refresh_plan(text@, *template, current@, active,
            match desired { Some(d) => Some(d@), None => None }),
{
    let ours = text.restore(current).is_some();
    if !str_eq(current, text.source()) && !ours {
        return DocumentRefresh::Forget;
    }
    if active {
        if let Some(d) = desired {
            if str_eq(d.as_str(), current) {
                return DocumentRefresh::Keep;
            }
            match template.render(d.as_str()) {
                Some(html) => return DocumentRefresh::Write { visible: d, html },
                None => {
                    if ours {
                        let original = template.original_html();
                        let o = chars_of(original);
                        return DocumentRefresh::Restore { html: string_of(&o) };
                    }
                    return DocumentRefresh::Keep;
                },
            }
        }
    }
    if ours {
        let original = template.original_html();
        let o = chars_of(original);
        DocumentRefresh::Restore { html: string_of(&o) }
    } else {
        DocumentRefresh::Keep
    }
}

/// A document the host rewrote is never written to: it is only forgotten.
pub proof fn law_host_rewrite_is_forgotten(m: RetainedModel, t: HtmlTextTemplate, current: Seq<char>, active: bool,
    desired: Option<Seq<char>>)
    requires
        current != m.source,
        m.written != Some(current),
    ensures
        refresh_plan(m, t, current, active, desired) == RefreshPlan::Forget,
{
}

/// With replacement inactive, a refresh only ever restores our own write, never writes.
pub proof fn law_inactive_refresh_only_restores(m: RetainedModel, t: HtmlTextTemplate, current: Seq<char>,
    desired: Option<Seq<char>>)
    ensures
        !(refresh_plan(m, t, current, false, desired) is Write),
        refresh_plan(m, t, current, false, desired) is Restore ==> m.written == Some(current),
{
}

} // verus!
