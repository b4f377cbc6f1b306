//! Retained Qt `QTextDocument` text: an HTML template with one translatable text
//! region, and the restore bookkeeping for the text the adapter wrote.
use vstd::prelude::*;
use crate::unicode::{all_whitespace, chars_of, is_blank, is_whitespace_char, string_of, utf16_len_exceeds, is_whitespace, trim, trim_chars, trim_start, trim_start_index, utf16_len};
use crate::retained::{after_clear, after_host_write, after_mark, restored, RetainedModel};
use crate::chars::{append_all, chars_eq, contains_char, copy_range, decode_utf8_chars, has_layout_control, has_layout_control_chars, str_bytes, str_eq, utf8_chars};

verus! {

pub const MAX_TEXT_UNITS: usize = 16_384;

// ---------------------------------------------------------------------------
// Lexical pieces of the markup.
// ---------------------------------------------------------------------------

/// `u8::is_ascii_whitespace` / `char::is_ascii_whitespace`.
pub open spec fn is_ascii_ws(c: char) -> bool {
    c == ' ' || c == '\t' || c == '\n' || c == '\u{c}' || c == '\r'
}

/// Position of the `>` that closes a tag whose body starts at `i`; `>` inside a
/// single- or double-quoted attribute value does not close the tag.
pub open spec fn tag_end_from(b: Seq<u8>, i: int, quote: Option<u8>) -> Option<int>
    decreases b.len() - i,
{
    if i < 0 || i >= b.len() {
        None
    } else {
        let c = b[i];
        if quote is None && (c == 0x27u8 || c == 0x22u8) {
            tag_end_from(b, i + 1, Some(c))
        } else if quote == Some(c) {
            tag_end_from(b, i + 1, None)
        } else if c == 0x3Eu8 && quote is None {
            Some(i)
        } else {
            tag_end_from(b, i + 1, quote)
        }
    }
}

/// Position of the next `<` at or after `i`, or the end of the input.
pub open spec fn next_open(b: Seq<u8>, i: int) -> int
    decreases b.len() - i,
{
    if i < 0 || i >= b.len() {
        b.len() as int
    } else if b[i] == 0x3Cu8 {
        i
    } else {
        next_open(b, i + 1)
    }
}

/// Position of the first `-->` at or after `i`.
pub open spec fn comment_close_from(b: Seq<u8>, i: int) -> Option<int>
    decreases b.len() - i,
{
    if i < 0 || i + 3 > b.len() {
        None
    } else if b[i] == 0x2Du8 && b[i + 1] == 0x2Du8 && b[i + 2] == 0x3Eu8 {
        Some(i)
    } else {
        comment_close_from(b, i + 1)
    }
}

/// `html.get(a..e)` as characters.
pub open spec fn piece(b: Seq<u8>, a: int, e: int) -> Option<Seq<char>> {
    if 0 <= a <= e <= b.len() {
        utf8_chars(b.subrange(a, e))
    } else {
        None
    }
}

pub open spec fn starts_with(s: Seq<char>, p: Seq<char>) -> bool {
    s.len() >= p.len() && s.take(p.len() as int) == p
}

/// `trim_start_matches('/')`.
pub open spec fn strip_slashes(s: Seq<char>) -> Seq<char>
    decreases s.len(),
{
    if s.len() > 0 && s[0] == '/' {
        strip_slashes(s.drop_first())
    } else {
        s
    }
}

/// End of a tag name: the first ASCII whitespace or `/` at or after `i`.
pub open spec fn name_end_from(s: Seq<char>, i: int) -> int
    decreases s.len() - i,
{
    if i < 0 || i >= s.len() {
        s.len() as int
    } else if is_ascii_ws(s[i]) || s[i] == '/' {
        i
    } else {
        name_end_from(s, i + 1)
    }
}

pub open spec fn ascii_lower(c: char) -> char {
    if 'A' <= c <= 'Z' {
        (((c as u32) + 32) as u8) as char
    } else {
        c
    }
}

/// `to_ascii_lowercase`.
pub open spec fn lower(s: Seq<char>) -> Seq<char> {
    Seq::new(s.len(), |i: int| ascii_lower(s[i]))
}

/// Elements that never have content (HTML void elements).
pub open spec fn is_void_name(n: Seq<char>) -> bool {
    n == seq!['a', 'r', 'e', 'a'] || n == seq!['b', 'a', 's', 'e'] || n == seq!['b', 'r']
        || n == seq!['c', 'o', 'l'] || n == seq!['e', 'm', 'b', 'e', 'd'] || n == seq!['h', 'r']
        || n == seq!['i', 'm', 'g'] || n == seq!['i', 'n', 'p', 'u', 't']
        || n == seq!['l', 'i', 'n', 'k'] || n == seq!['m', 'e', 't', 'a']
        || n == seq!['p', 'a', 'r', 'a', 'm'] || n == seq!['s', 'o', 'u', 'r', 'c', 'e']
        || n == seq!['t', 'r', 'a', 'c', 'k'] || n == seq!['w', 'b', 'r']
}

/// Elements that continue one logical inline text flow.
pub open spec fn is_inline_flow_name(n: Seq<char>) -> bool {
    n == seq!['a'] || n == seq!['b'] || n == seq!['b', 'r'] || n == seq!['c', 'o', 'd', 'e']
        || n == seq!['e', 'm'] || n == seq!['f', 'o', 'n', 't'] || n == seq!['i']
        || n == seq!['i', 'm', 'g'] || n == seq!['k', 'b', 'd'] || n == seq!['m', 'a', 'r', 'k']
        || n == seq!['s'] || n == seq!['s', 'm', 'a', 'l', 'l'] || n == seq!['s', 'p', 'a', 'n']
        || n == seq!['s', 't', 'r', 'o', 'n', 'g'] || n == seq!['s', 'u', 'b']
        || n == seq!['s', 'u', 'p'] || n == seq!['u'] || n == seq!['w', 'b', 'r']
}

/// `style` and `script`: their content is never visible text.
pub open spec fn is_raw_text_name(n: Seq<char>) -> bool {
    n == seq!['s', 't', 'y', 'l', 'e'] || n == seq!['s', 'c', 'r', 'i', 'p', 't']
}

// ---------------------------------------------------------------------------
// The scanner.
// ---------------------------------------------------------------------------

/// Scanner state between two markup items.
pub struct ScanState {
    pub cursor: int,
    pub suppressed: Option<Seq<char>>,
    pub stack: Seq<Seq<char>>,
    pub visible: Seq<(int, int, Seq<char>)>,
    pub flow_text: Seq<char>,
    pub flow_start: Option<int>,
    pub flow_end: Option<int>,
    pub inline_flow_tags: nat,
    pub compatible: bool,
}

pub open spec fn scan_start() -> ScanState {
    ScanState {
        cursor: 0,
        suppressed: None,
        stack: seq![],
        visible: seq![],
        flow_text: seq![],
        flow_start: None,
        flow_end: None,
        inline_flow_tags: 0,
        compatible: true,
    }
}

pub open spec fn widen_start(o: Option<int>, v: int) -> Option<int> {
    match o {
        Some(s) => Some(if v < s { v } else { s }),
        None => Some(v),
    }
}

pub open spec fn widen_end(o: Option<int>, v: int) -> Option<int> {
    match o {
        Some(s) => Some(if v > s { v } else { s }),
        None => Some(v),
    }
}

/// One tag (or comment, declaration or processing instruction) at `st.cursor`.
pub open spec fn tag_step(b: Seq<u8>, st: ScanState) -> Option<ScanState> {
    let cursor = st.cursor;
    match tag_end_from(b, cursor + 1, None) {
        None => None,
        Some(end) => match piece(b, cursor + 1, end) {
            None => None,
            Some(raw) => {
                let tag = trim(raw);
                if starts_with(tag, seq!['!', '-', '-']) {
                    let compatible = if st.suppressed is None { false } else { st.compatible };
                    if cursor + 4 <= b.len() && utf8_chars(b.subrange(cursor + 4, b.len() as int)) is Some {
                        match comment_close_from(b, cursor + 4) {
                            None => None,
                            Some(j) => Some(ScanState { cursor: j + 3, compatible, ..st }),
                        }
                    } else {
                        None
                    }
                } else if tag.len() > 0 && (tag[0] == '!' || tag[0] == '?') {
                    Some(ScanState { cursor: end + 1, ..st })
                } else {
                    let closing = tag.len() > 0 && tag[0] == '/';
                    let body = trim_start(strip_slashes(tag));
                    let name = lower(body.take(name_end_from(body, 0)));
                    if name.len() == 0 {
                        None
                    } else {
                        let self_closing = (tag.len() > 0 && tag.last() == '/') || is_void_name(name);
                        let raw_text = is_raw_text_name(name);
                        let counted = !raw_text && st.suppressed is None;
                        let inline = is_inline_flow_name(name);
                        let tags = if counted && inline { st.inline_flow_tags + 1 } else { st.inline_flow_tags };
                        let fs = if counted && inline { widen_start(st.flow_start, cursor) } else { st.flow_start };
                        let fe = if counted && inline { widen_end(st.flow_end, end + 1) } else { st.flow_end };
                        let compatible = if counted && !inline { false } else { st.compatible };
                        let stack = if closing {
                            if st.stack.len() > 0 && st.stack.last() == name {
                                Some(st.stack.drop_last())
                            } else {
                                None
                            }
                        } else if !self_closing {
                            Some(st.stack.push(name))
                        } else {
                            Some(st.stack)
                        };
                        let suppressed = if raw_text {
                            if closing {
                                if st.suppressed == Some(name) { Some(None) } else { None }
                            } else if !self_closing {
                                if st.suppressed is Some { None } else { Some(Some(name)) }
                            } else {
                                Some(st.suppressed)
                            }
                        } else {
                            Some(st.suppressed)
                        };
                        match (stack, suppressed) {
                            (Some(stack), Some(suppressed)) => Some(ScanState {
                                cursor: end + 1,
                                suppressed,
                                stack,
                                inline_flow_tags: tags,
                                flow_start: fs,
                                flow_end: fe,
                                compatible,
                                ..st
                            }),
                            _ => None,
                        }
                    }
                }
            },
        },
    }
}

/// One text run at `st.cursor` (up to the next `<`).
pub open spec fn text_step(b: Seq<u8>, st: ScanState) -> Option<ScanState> {
    let end = next_open(b, st.cursor);
    if st.suppressed is None {
        match piece(b, st.cursor, end) {
            None => None,
            Some(text) => {
                let shown = !all_whitespace(text);
                Some(ScanState {
                    cursor: end,
                    flow_text: st.flow_text + text,
                    visible: if shown { st.visible.push((st.cursor, end, text)) } else { st.visible },
                    flow_start: if shown { widen_start(st.flow_start, st.cursor) } else { st.flow_start },
                    flow_end: if shown { widen_end(st.flow_end, end) } else { st.flow_end },
                    compatible: if text.contains('&') { false } else { st.compatible },
                    ..st
                })
            },
        }
    } else {
        Some(ScanState { cursor: end, ..st })
    }
}

pub open spec fn scan_step(b: Seq<u8>, st: ScanState) -> Option<ScanState> {
    if b[st.cursor] == 0x3Cu8 {
        tag_step(b, st)
    } else {
        text_step(b, st)
    }
}

/// The whole markup scanned from `st`; `None` when the markup is rejected.
pub open spec fn scan(b: Seq<u8>, st: ScanState) -> Option<ScanState>
    decreases b.len() - st.cursor,
{
    if st.cursor < 0 || st.cursor >= b.len() {
        Some(st)
    } else {
        match scan_step(b, st) {
            None => None,
            Some(n) => if st.cursor < n.cursor <= b.len() { scan(b, n) } else { None },
        }
    }
}

/// Whitespace runs collapsed to one space, leading and trailing whitespace removed.
pub open spec fn collapse_from(t: Seq<char>, out: Seq<char>, pending: bool) -> Seq<char>
    decreases t.len(),
{
    if t.len() == 0 {
        out
    } else if is_whitespace(t[0]) {
        collapse_from(t.drop_first(), out, out.len() > 0)
    } else if pending {
        collapse_from(t.drop_first(), out.push(' ').push(t[0]), false)
    } else {
        collapse_from(t.drop_first(), out.push(t[0]), false)
    }
}

pub open spec fn normalize_inline_flow(t: Seq<char>) -> Option<Seq<char>> {
    let r = collapse_from(t, seq![], false);
    if r.len() > 0 { Some(r) } else { None }
}

/// A lone visible text node that can be replaced verbatim.
pub open spec fn single_run_ok(s: Seq<char>) -> bool {
    s == trim(s) && !s.contains('&') && !has_layout_control(s) && utf16_len(s) <= MAX_TEXT_UNITS
}

/// Source text and its byte range, from the final scanner state.
pub open spec fn template_of(st: ScanState) -> Option<(Seq<char>, int, int)> {
    if st.suppressed is Some || st.stack.len() > 0 {
        None
    } else if st.visible.len() == 1 && single_run_ok(st.visible[0].2) {
        Some((st.visible[0].2, st.visible[0].0, st.visible[0].1))
    } else if !st.compatible || st.inline_flow_tags == 0 || st.visible.len() == 0 {
        None
    } else {
        match normalize_inline_flow(st.flow_text) {
            None => None,
            Some(src) => if utf16_len(src) > MAX_TEXT_UNITS {
                None
            } else {
                match (st.flow_start, st.flow_end) {
                    (Some(s), Some(e)) => Some((src, s, e)),
                    _ => None,
                }
            },
        }
    }
}

/// What `HtmlTextTemplate::parse` accepts: the source text and the byte range it replaces.
pub open spec fn parse_html(html: Seq<char>) -> Option<(Seq<char>, int, int)> {
    if utf16_len(html) > MAX_TEXT_UNITS {
        None
    } else {
        match scan(vstd::utf8::encode_utf8(html), scan_start()) {
            None => None,
            Some(st) => template_of(st),
        }
    }
}

// ---------------------------------------------------------------------------
// Rendering.
// ---------------------------------------------------------------------------

pub open spec fn escape_char(c: char) -> Seq<char> {
    if c == '&' {
        seq!['&', 'a', 'm', 'p', ';']
    } else if c == '<' {
        seq!['&', 'l', 't', ';']
    } else if c == '>' {
        seq!['&', 'g', 't', ';']
    } else {
        seq![c]
    }
}

/// HTML text escaping of `&`, `<` and `>`.
pub open spec fn escape(s: Seq<char>) -> Seq<char>
    decreases s.len(),
{
    if s.len() == 0 {
        seq![]
    } else {
        escape(s.drop_last()) + escape_char(s.last())
    }
}

/// The host HTML with the source range replaced by the escaped replacement.
pub open spec fn render_html(original: Seq<u8>, start: int, end: int, replacement: Seq<char>) -> Option<Seq<char>> {
    if all_whitespace(replacement) || utf16_len(replacement) > MAX_TEXT_UNITS
        || has_layout_control(replacement) {
        None
    } else {
        match (piece(original, 0, start), piece(original, end, original.len() as int)) {
            (Some(prefix), Some(suffix)) => {
                let out = prefix + escape(replacement) + suffix;
                if utf16_len(out) > MAX_TEXT_UNITS { None } else { Some(out) }
            },
            _ => None,
        }
    }
}

// ---------------------------------------------------------------------------
// Executable lexical helpers.
// ---------------------------------------------------------------------------

fn tag_end(bytes: &[u8], start: usize) -> (r: Option<usize>)
    ensures
        match r {
            Some(e) => tag_end_from(bytes@, start as int, None) == Some(e as int),
            None => tag_end_from(bytes@, start as int, None) is None,
        },
{
    let mut quote: Option<u8> = None;
    let mut i: usize = start;
    while i < bytes.len()
        invariant
            tag_end_from(bytes@, start as int, None) == tag_end_from(bytes@, i as int, quote),
        decreases bytes.len() - i,
    {
        let c = bytes[i];
        if quote.is_none() && (c == 0x27u8 || c == 0x22u8) {
            quote = Some(c);
        } else if quote == Some(c) {
            quote = None;
        } else if c == 0x3Eu8 && quote.is_none() {
            return Some(i);
        }
        i += 1;
    }
    None
}

fn next_open_exec(bytes: &[u8], start: usize) -> (r: usize)
    requires
        start <= bytes.len(),
    ensures
        r as int == next_open(bytes@, start as int),
        start <= r <= bytes.len(),
{
    let mut i: usize = start;
    while i < bytes.len() && bytes[i] != 0x3Cu8
        invariant
            start <= i <= bytes.len(),
            next_open(bytes@, start as int) == next_open(bytes@, i as int),
        decreases bytes.len() - i,
    {
        i += 1;
    }
    i
}

fn comment_close(bytes: &[u8], start: usize) -> (r: Option<usize>)
    ensures
        match r {
            Some(j) => comment_close_from(bytes@, start as int) == Some(j as int) && start <= j
                && j + 3 <= bytes.len(),
            None => comment_close_from(bytes@, start as int) is None,
        },
{
    let mut i: usize = start;
    while i < bytes.len() && bytes.len() - i >= 3
        invariant
            start <= i,
            comment_close_from(bytes@, start as int) == comment_close_from(bytes@, i as int),
        decreases bytes.len() - i,
    {
        if bytes[i] == 0x2Du8 && bytes[i + 1] == 0x2Du8 && bytes[i + 2] == 0x3Eu8 {
            return Some(i);
        }
        i += 1;
    }
    None
}

fn piece_exec(bytes: &[u8], a: usize, e: usize) -> (r: Option<Vec<char>>)
    requires
        a <= e <= bytes.len(),
    ensures
        match r {
            Some(v) => piece(bytes@, a as int, e as int) == Some(v@),
            None => piece(bytes@, a as int, e as int) is None,
        },
{
    let sub = copy_range(bytes, a, e);
    decode_utf8_chars(&sub)
}

fn starts_with_comment(t: &[char]) -> (r: bool)
    ensures
        r == starts_with(t@, seq!['!', '-', '-']),
{
    let r = t.len() >= 3 && t[0] == '!' && t[1] == '-' && t[2] == '-';
    proof {
        if t.len() >= 3 {
            if r {
                assert(t@.take(3) =~= seq!['!', '-', '-']);
            } else {
                assert(t@.take(3)[0] == t@[0] && t@.take(3)[1] == t@[1] && t@.take(3)[2] == t@[2]);
            }
        }
    }
    r
}

fn slashes_end(t: &[char]) -> (r: usize)
    ensures
        r <= t.len(),
        strip_slashes(t@) == t@.skip(r as int),
{
    let mut i: usize = 0;
    assert(t@.skip(0) =~= t@);
    while i < t.len() && t[i] == '/'
        invariant
            i <= t.len(),
            strip_slashes(t@) == strip_slashes(t@.skip(i as int)),
        decreases t.len() - i,
    {
        assert(t@.skip(i as int).drop_first() =~= t@.skip(i + 1));
        i += 1;
    }
    proof {
        if i < t.len() {
            assert(t@.skip(i as int)[0] == t@[i as int]);
        }
    }
    i
}

fn name_end(s: &[char]) -> (r: usize)
    ensures
        r as int == name_end_from(s@, 0),
        r <= s.len(),
{
    let mut i: usize = 0;
    while i < s.len() && !(s[i] == ' ' || s[i] == '\t' || s[i] == '\n' || s[i] == '\u{c}'
        || s[i] == '\r' || s[i] == '/')
        invariant
            i <= s.len(),
            name_end_from(s@, 0) == name_end_from(s@, i as int),
        decreases s.len() - i,
    {
        i += 1;
    }
    i
}

fn lower_chars(v: &[char]) -> (r: Vec<char>)
    ensures
        r@ == lower(v@),
{
    let mut out: Vec<char> = Vec::new();
    let mut i: usize = 0;
    while i < v.len()
        invariant
            i <= v.len(),
            out@ == lower(v@.take(i as int)),
        decreases v.len() - i,
    {
        let c = v[i];
        let l = if 'A' <= c && c <= 'Z' { ((c as u8) + 32) as char } else { c };
        assert(l == ascii_lower(c));
        out.push(l);
        i += 1;
        assert(out@ =~= lower(v@.take(i as int)));
    }
    assert(v@.take(v.len() as int) =~= v@);
    out
}

fn is_void_name_exec(n: &[char]) -> (r: bool)
    ensures
        r == is_void_name(n@),
{
    chars_eq(n, &['a', 'r', 'e', 'a']) || chars_eq(n, &['b', 'a', 's', 'e'])
        || chars_eq(n, &['b', 'r']) || chars_eq(n, &['c', 'o', 'l'])
        || chars_eq(n, &['e', 'm', 'b', 'e', 'd']) || chars_eq(n, &['h', 'r'])
        || chars_eq(n, &['i', 'm', 'g']) || chars_eq(n, &['i', 'n', 'p', 'u', 't'])
        || chars_eq(n, &['l', 'i', 'n', 'k']) || chars_eq(n, &['m', 'e', 't', 'a'])
        || chars_eq(n, &['p', 'a', 'r', 'a', 'm']) || chars_eq(n, &['s', 'o', 'u', 'r', 'c', 'e'])
        || chars_eq(n, &['t', 'r', 'a', 'c', 'k']) || chars_eq(n, &['w', 'b', 'r'])
}

fn is_single(n: &[char], c: char) -> (r: bool)
    ensures
        r == (n@ == seq![c]),
{
    let r = n.len() == 1 && n[0] == c;
    proof {
        if r {
            assert(n@ =~= seq![c]);
        }
    }
    r
}

/// Tags that continue a root-level inline text flow.
fn inline_flow_tag(n: &[char]) -> (r: bool)
    ensures
        r == is_inline_flow_name(n@),
{
    let a = is_single(n, 'a') || is_single(n, 'b') || chars_eq(n, &['b', 'r'])
        || chars_eq(n, &['c', 'o', 'd', 'e']) || chars_eq(n, &['e', 'm'])
        || chars_eq(n, &['f', 'o', 'n', 't']) || is_single(n, 'i')
        || chars_eq(n, &['i', 'm', 'g']) || chars_eq(n, &['k', 'b', 'd']);
    let b = chars_eq(n, &['m', 'a', 'r', 'k']) || is_single(n, 's')
        || chars_eq(n, &['s', 'm', 'a', 'l', 'l']) || chars_eq(n, &['s', 'p', 'a', 'n'])
        || chars_eq(n, &['s', 't', 'r', 'o', 'n', 'g']) || chars_eq(n, &['s', 'u', 'b'])
        || chars_eq(n, &['s', 'u', 'p']) || is_single(n, 'u') || chars_eq(n, &['w', 'b', 'r']);
    a || b
}

fn is_raw_text_name_exec(n: &[char]) -> (r: bool)
    ensures
        r == is_raw_text_name(n@),
{
    chars_eq(n, &['s', 't', 'y', 'l', 'e']) || chars_eq(n, &['s', 'c', 'r', 'i', 'p', 't'])
}

// ---------------------------------------------------------------------------
// Executable scanner.
// ---------------------------------------------------------------------------

pub proof fn lemma_tag_end_range(b: Seq<u8>, i: int, q: Option<u8>)
    ensures
        tag_end_from(b, i, q) matches Some(e) ==> i <= e < b.len(),
    decreases b.len() - i,
{
    if 0 <= i < b.len() {
        let c = b[i];
        if q is None && (c == 0x27u8 || c == 0x22u8) {
            lemma_tag_end_range(b, i + 1, Some(c));
        } else if q == Some(c) {
            lemma_tag_end_range(b, i + 1, None);
        } else if c == 0x3Eu8 && q is None {
        } else {
            lemma_tag_end_range(b, i + 1, q);
        }
    }
}

pub proof fn lemma_next_open_range(b: Seq<u8>, i: int)
    requires
        0 <= i <= b.len(),
    ensures
        i <= next_open(b, i) <= b.len(),
    decreases b.len() - i,
{
    if i < b.len() && b[i] != 0x3Cu8 {
        lemma_next_open_range(b, i + 1);
    }
}

pub proof fn lemma_comment_close_range(b: Seq<u8>, i: int)
    ensures
        comment_close_from(b, i) matches Some(j) ==> i <= j && j + 3 <= b.len(),
    decreases b.len() - i,
{
    if 0 <= i && i + 3 <= b.len() && !(b[i] == 0x2Du8 && b[i + 1] == 0x2Du8 && b[i + 2] == 0x3Eu8) {
        lemma_comment_close_range(b, i + 1);
    }
}

struct Scan {
    cursor: usize,
    suppressed: Option<Vec<char>>,
    stack: Vec<Vec<char>>,
    visible: Vec<(usize, usize, Vec<char>)>,
    flow_text: Vec<char>,
    flow_start: Option<usize>,
    flow_end: Option<usize>,
    inline_flow_tags: usize,
    compatible: bool,
}

spec fn opt_chars(o: Option<Vec<char>>) -> Option<Seq<char>> {
    match o {
        Some(v) => Some(v@),
        None => None,
    }
}

spec fn opt_int(o: Option<usize>) -> Option<int> {
    match o {
        Some(v) => Some(v as int),
        None => None,
    }
}

spec fn visible_entry(t: (usize, usize, Vec<char>)) -> (int, int, Seq<char>) {
    (t.0 as int, t.1 as int, t.2@)
}

spec fn name_view(v: Vec<char>) -> Seq<char> {
    v@
}

impl Scan {
    spec fn view(&self) -> ScanState {
        ScanState {
            cursor: self.cursor as int,
            suppressed: opt_chars(self.suppressed),
            stack: self.stack@.map_values(|v: Vec<char>| name_view(v)),
            visible: self.visible@.map_values(|t: (usize, usize, Vec<char>)| visible_entry(t)),
            flow_text: self.flow_text@,
            flow_start: opt_int(self.flow_start),
            flow_end: opt_int(self.flow_end),
            inline_flow_tags: self.inline_flow_tags as nat,
            compatible: self.compatible,
        }
    }

    spec fn bounded(&self, len: int) -> bool {
        &&& self.cursor <= len
        &&& self.inline_flow_tags <= self.cursor
        &&& self.flow_start matches Some(v) ==> v <= len
        &&& self.flow_end matches Some(v) ==> v <= len
    }
}

fn widen_start_exec(o: Option<usize>, v: usize) -> (r: Option<usize>)
    ensures
        opt_int(r) == widen_start(opt_int(o), v as int),
{
    match o {
        Some(s) => Some(if v < s { v } else { s }),
        None => Some(v),
    }
}

fn widen_end_exec(o: Option<usize>, v: usize) -> (r: Option<usize>)
    ensures
        opt_int(r) == widen_end(opt_int(o), v as int),
{
    match o {
        Some(s) => Some(if v > s { v } else { s }),
        None => Some(v),
    }
}

#[verifier::rlimit(40)]
fn tag_step_exec(html: &[u8], st: Scan) -> (r: Option<Scan>)
    requires
        st.cursor < html.len(),
        html@[st.cursor as int] == 0x3Cu8,
        st.bounded(html.len() as int),
    ensures
        match r {
            Some(n) => tag_step(html@, st.view()) == Some(n.view()) && st.cursor < n.cursor
                && n.bounded(html.len() as int),
            None => tag_step(html@, st.view()) is None,
        },
{
    let ghost old_view = st.view();
    let cursor = st.cursor;
    proof {
        lemma_tag_end_range(html@, cursor + 1, None);
    }
    let end = match tag_end(html, cursor + 1) {
        Some(e) => e,
        None => {
            return None;
        },
    };
    let raw = match piece_exec(html, cursor + 1, end) {
        Some(v) => v,
        None => {
            return None;
        },
    };
    let tag = trim_chars(&raw);
    if starts_with_comment(&tag) {
        let compatible = if st.suppressed.is_none() { false } else { st.compatible };
        if html.len() - cursor >= 4 {
            if piece_exec(html, cursor + 4, html.len()).is_none() {
                return None;
            }
            proof {
                lemma_comment_close_range(html@, cursor + 4);
            }
            match comment_close(html, cursor + 4) {
                None => None,
                Some(j) => {
                    let n = Scan { cursor: j + 3, compatible, ..st };
                    assert(n.view() == ScanState { cursor: j + 3, compatible, ..old_view });
                    Some(n)
                },
            }
        } else {
            None
        }
    } else if tag.len() > 0 && (tag[0] == '!' || tag[0] == '?') {
        let n = Scan { cursor: end + 1, ..st };
        assert(n.view() == ScanState { cursor: end + 1, ..old_view });
        Some(n)
    } else {
        let closing = tag.len() > 0 && tag[0] == '/';
        let k = slashes_end(&tag);
        let stripped = copy_range(&tag, k, tag.len());
        assert(stripped@ == strip_slashes(tag@));
        let t0 = trim_start_index(&stripped);
        let body = copy_range(&stripped, t0, stripped.len());
        assert(body@ == trim_start(strip_slashes(tag@)));
        let ne = name_end(&body);
        let name_raw = copy_range(&body, 0, ne);
        assert(name_raw@ == body@.take(ne as int));
        let name = lower_chars(&name_raw);
        if name.len() == 0 {
            return None;
        }
        let self_closing = (tag.len() > 0 && tag[tag.len() - 1] == '/') || is_void_name_exec(&name);
        let raw_text = is_raw_text_name_exec(&name);
        let counted = !raw_text && st.suppressed.is_none();
        let inline = inline_flow_tag(&name);
        let Scan {
            cursor: _,
            suppressed,
            mut stack,
            visible,
            flow_text,
            mut flow_start,
            mut flow_end,
            mut inline_flow_tags,
            mut compatible,
        } = st;
        if counted {
            if inline {
                inline_flow_tags = inline_flow_tags + 1;
                flow_start = widen_start_exec(flow_start, cursor);
                flow_end = widen_end_exec(flow_end, end + 1);
            } else {
                compatible = false;
            }
        }
        let ghost old_stack = stack@.map_values(|v: Vec<char>| name_view(v));
        if closing {
            if stack.len() > 0 && chars_eq(stack[stack.len() - 1].as_slice(), name.as_slice()) {
                stack.pop();
                assert(stack@.map_values(|v: Vec<char>| name_view(v)) =~= old_stack.drop_last());
            } else {
                return None;
            }
        } else if !self_closing {
            let entry = copy_range(&name, 0, name.len());
            assert(entry@ =~= name@);
            stack.push(entry);
            assert(stack@.map_values(|v: Vec<char>| name_view(v)) =~= old_stack.push(name@));
        }
        let mut new_suppressed = suppressed;
        if raw_text {
            if closing {
                let same = match &new_suppressed {
                    Some(sv) => chars_eq(sv.as_slice(), name.as_slice()),
                    None => false,
                };
                if !same {
                    return None;
                }
                new_suppressed = None;
            } else if !self_closing {
                if new_suppressed.is_some() {
                    return None;
                }
                new_suppressed = Some(name);
            }
        }
        let n = Scan {
            cursor: end + 1,
            suppressed: new_suppressed,
            stack,
            visible,
            flow_text,
            flow_start,
            flow_end,
            inline_flow_tags,
            compatible,
        };
        Some(n)
    }
}

fn text_step_exec(html: &[u8], st: Scan) -> (r: Option<Scan>)
    requires
        st.cursor < html.len(),
        html@[st.cursor as int] != 0x3Cu8,
        st.bounded(html.len() as int),
    ensures
        match r {
            Some(n) => text_step(html@, st.view()) == Some(n.view()) && st.cursor < n.cursor
                && n.bounded(html.len() as int),
            None => text_step(html@, st.view()) is None,
        },
{
    let ghost old_view = st.view();
    let cursor = st.cursor;
    proof {
        lemma_next_open_range(html@, cursor + 1);
    }
    let end = next_open_exec(html, cursor);
    if st.suppressed.is_none() {
        let text = match piece_exec(html, cursor, end) {
            Some(v) => v,
            None => {
                return None;
            },
        };
        let shown = !is_blank(&text);
        let amp = contains_char(&text, '&');
        let Scan {
            cursor: _,
            suppressed,
            stack,
            mut visible,
            mut flow_text,
            mut flow_start,
            mut flow_end,
            inline_flow_tags,
            mut compatible,
        } = st;
        append_all(&mut flow_text, &text);
        if shown {
            let ghost old_visible = visible@.map_values(|t: (usize, usize, Vec<char>)| visible_entry(t));
            let entry = copy_range(&text, 0, text.len());
            assert(entry@ =~= text@);
            visible.push((cursor, end, entry));
            assert(visible@.map_values(|t: (usize, usize, Vec<char>)| visible_entry(t)) =~= old_visible.push(
                (cursor as int, end as int, text@),
            ));
            flow_start = widen_start_exec(flow_start, cursor);
            flow_end = widen_end_exec(flow_end, end);
        }
        if amp {
            compatible = false;
        }
        Some(Scan {
            cursor: end,
            suppressed,
            stack,
            visible,
            flow_text,
            flow_start,
            flow_end,
            inline_flow_tags,
            compatible,
        })
    } else {
        let n = Scan { cursor: end, ..st };
        assert(n.view() == ScanState { cursor: end as int, ..old_view });
        Some(n)
    }
}

fn scan_start_exec() -> (r: Scan)
    ensures
        r.view() == scan_start(),
        r.bounded(0),
{
    let r = Scan {
        cursor: 0,
        suppressed: None,
        stack: Vec::new(),
        visible: Vec::new(),
        flow_text: Vec::new(),
        flow_start: None,
        flow_end: None,
        inline_flow_tags: 0,
        compatible: true,
    };
    assert(r.view().stack =~= Seq::<Seq<char>>::empty());
    assert(r.view().visible =~= Seq::<(int, int, Seq<char>)>::empty());
    assert(r.view().flow_text =~= Seq::<char>::empty());
    r
}

/// Collapses whitespace runs of one inline flow into single spaces.
fn normalize_inline_flow_text(text: &[char]) -> (r: Option<Vec<char>>)
    ensures
        match r {
            Some(v) => normalize_inline_flow(text@) == Some(v@),
            None => normalize_inline_flow(text@) is None,
        },
{
    let mut out: Vec<char> = Vec::new();
    let mut pending = false;
    let mut i: usize = 0;
    assert(text@.skip(0) =~= text@);
    while i < text.len()
        invariant
            i <= text.len(),
            collapse_from(text@, seq![], false) == collapse_from(text@.skip(i as int), out@, pending),
        decreases text.len() - i,
    {
        let c = text[i];
        assert(text@.skip(i as int).drop_first() =~= text@.skip(i + 1));
        assert(text@.skip(i as int)[0] == c);
        if is_whitespace_char(c) {
            pending = out.len() > 0;
        } else {
            if pending {
                out.push(' ');
                pending = false;
            }
            out.push(c);
        }
        i += 1;
    }
    assert(text@.skip(i as int) =~= Seq::<char>::empty());
    if out.len() > 0 {
        Some(out)
    } else {
        None
    }
}

fn single_run_ok_exec(src: &[char]) -> (r: bool)
    ensures
        r == single_run_ok(src@),
{
    let trimmed = trim_chars(src);
    chars_eq(&trimmed, src) && !contains_char(src, '&') && !has_layout_control_chars(src)
        && !utf16_len_exceeds(src, MAX_TEXT_UNITS)
}

fn scan_all(bytes: &[u8]) -> (r: Option<Scan>)
    ensures
        match r {
            Some(st) => scan(bytes@, scan_start()) == Some(st.view()),
            None => scan(bytes@, scan_start()) is None,
        },
{
    let mut st = scan_start_exec();
    while st.cursor < bytes.len()
        invariant
            scan(bytes@, scan_start()) == scan(bytes@, st.view()),
            st.bounded(bytes.len() as int),
        decreases bytes.len() - st.cursor,
    {
        let ghost before = st.view();
        let is_tag = bytes[st.cursor] == 0x3Cu8;
        let next = if is_tag { tag_step_exec(bytes, st) } else { text_step_exec(bytes, st) };
        match next {
            None => {
                return None;
            },
            Some(n) => {
                assert(scan_step(bytes@, before) == Some(n.view()));
                st = n;
            },
        }
    }
    Some(st)
}

/// A host HTML string with exactly one translatable text region.
#[derive(Clone, Debug, PartialEq, Eq)]
pub struct HtmlTextTemplate {
    original: String,
    source: String,
    source_start: usize,
    source_end: usize,
}

impl HtmlTextTemplate {
    /// The host HTML the template was parsed from.
    pub closed spec fn spec_original(&self) -> Seq<char> {
        self.original@
    }

    /// The source text offered for translation.
    pub closed spec fn spec_source(&self) -> Seq<char> {
        self.source@
    }

    /// Byte offset where the replaced region starts.
    pub closed spec fn spec_start(&self) -> int {
        self.source_start as int
    }

    /// Byte offset where the replaced region ends.
    pub closed spec fn spec_end(&self) -> int {
        self.source_end as int
    }

    /// Accepts plain `setHtml` input, conservative rich HTML with one visible literal text node,
    /// or one logical root-level inline flow; style/script contents and outer markup are kept
    /// verbatim. Multiple block flows, entities and malformed markup are refused. A leading
    /// `<style>` block leaves the source as it is (`law_style_block_keeps_the_source`).
    pub fn parse(html: &str) -> (r: Option<Self>)
        ensures
            match r {
                Some(t) => t.spec_original() == html@ && parse_html(html@) == Some(
                    (t.spec_source(), t.spec_start(), t.spec_end()),
                ),
                None => parse_html(html@) is None,
            },
    {
        let chars = chars_of(html);
        if utf16_len_exceeds(&chars, MAX_TEXT_UNITS) {
            return None;
        }
        let bytes = str_bytes(html);
        let st = match scan_all(&bytes) {
            Some(st) => st,
            None => {
                return None;
            },
        };
        if st.suppressed.is_some() || st.stack.len() > 0 {
            return None;
        }
        if st.visible.len() == 1 {
            let entry = &st.visible[0];
            if single_run_ok_exec(entry.2.as_slice()) {
                assert(st.view().visible[0] == visible_entry(st.visible@[0]));
                return Some(HtmlTextTemplate {
                    original: html.to_owned(),
                    source: string_of(entry.2.as_slice()),
                    source_start: entry.0,
                    source_end: entry.1,
                });
            }
        }
        if !st.compatible || st.inline_flow_tags == 0 || st.visible.len() == 0 {
            return None;
        }
        let source = match normalize_inline_flow_text(&st.flow_text) {
            Some(v) => v,
            None => {
                return None;
            },
        };
        if utf16_len_exceeds(&source, MAX_TEXT_UNITS) {
            return None;
        }
        match (st.flow_start, st.flow_end) {
            (Some(a), Some(e)) => Some(HtmlTextTemplate {
                original: html.to_owned(),
                source: string_of(&source),
                source_start: a,
                source_end: e,
            }),
            _ => None,
        }
    }

    pub fn source(&self) -> (r: &str)
        ensures
            r@ == self.spec_source(),
    {
        self.source.as_str()
    }

    pub fn original_html(&self) -> (r: &str)
        ensures
            r@ == self.spec_original(),
    {
        self.original.as_str()
    }

    /// The host HTML with the source region replaced by the escaped `replacement`; for a
    /// parsed template this is a splice on character boundaries
    /// (`law_parsed_template_renders_by_splicing`).
    pub fn render(&self, replacement: &str) -> (r: Option<String>)
        ensures
            match r {
                Some(s) => render_html(
                    vstd::utf8::encode_utf8(self.spec_original()),
                    self.spec_start(),
                    self.spec_end(),
                    replacement@,
                ) == Some(s@),
                None => render_html(
                    vstd::utf8::encode_utf8(self.spec_original()),
                    self.spec_start(),
                    self.spec_end(),
                    replacement@,
                ) is None,
            },
    {
        let rep = chars_of(replacement);
        if is_blank(&rep) || utf16_len_exceeds(&rep, MAX_TEXT_UNITS) || has_layout_control_chars(&rep) {
            return None;
        }
        let escaped = escape_chars(&rep);
        let bytes = str_bytes(self.original.as_str());
        if self.source_start > bytes.len() || self.source_end > bytes.len() {
            return None;
        }
        let prefix = match piece_exec(&bytes, 0, self.source_start) {
            Some(v) => v,
            None => {
                return None;
            },
        };
        let suffix = match piece_exec(&bytes, self.source_end, bytes.len()) {
            Some(v) => v,
            None => {
                return None;
            },
        };
        let mut out = prefix;
        append_all(&mut out, &escaped);
        append_all(&mut out, &suffix);
        if utf16_len_exceeds(&out, MAX_TEXT_UNITS) {
            return None;
        }
        Some(string_of(&out))
    }
}

fn escape_chars(s: &[char]) -> (r: Vec<char>)
    ensures
        r@ == escape(s@),
{
    let mut out: Vec<char> = Vec::new();
    let mut i: usize = 0;
    while i < s.len()
        invariant
            i <= s.len(),
            out@ == escape(s@.take(i as int)),
        decreases s.len() - i,
    {
        let c = s[i];
        assert(s@.take(i + 1).drop_last() =~= s@.take(i as int));
        if c == '&' {
            append_all(&mut out, &['&', 'a', 'm', 'p', ';']);
        } else if c == '<' {
            append_all(&mut out, &['&', 'l', 't', ';']);
        } else if c == '>' {
            append_all(&mut out, &['&', 'g', 't', ';']);
        } else {
            out.push(c);
        }
        i += 1;
        assert(out@ =~= escape(s@.take(i as int)));
    }
    assert(s@.take(s.len() as int) =~= s@);
    out
}

/// Restore bookkeeping for one retained document: the host source and the last text we wrote.
#[derive(Clone, Debug)]
pub struct DocumentText {
    source: String,
    written: Option<String>,
}

impl View for DocumentText {
    type V = RetainedModel;

    closed spec fn view(&self) -> RetainedModel {
        RetainedModel {
            source: self.source@,
            written: match self.written {
                Some(w) => Some(w@),
                None => None,
            },
        }
    }
}

impl DocumentText {
    pub fn new(source: String) -> (r: Self)
        ensures
            r@ == (RetainedModel { source: source@, written: None }),
    {
        DocumentText { source, written: None }
    }

    pub fn source(&self) -> (r: &str)
        ensures
            r@ == self@.source,
    {
        self.source.as_str()
    }

    /// The host set new text: it becomes the source, and our last write is forgotten.
    pub fn host_write(&mut self, source: String)
        ensures
            final(self)@ == after_host_write(old(self)@, source@),
    {
        self.source = source;
        self.written = None;
    }

    pub fn mark_written(&mut self, value: String)
        ensures
            final(self)@ == after_mark(old(self)@, value@),
    {
        self.written = Some(value);
    }

    pub fn clear_written(&mut self)
        ensures
            final(self)@ == after_clear(old(self)@),
    {
        self.written = None;
    }

    /// The source to put back, only when the document still shows exactly our last write.
    pub fn restore(&self, current: &str) -> (r: Option<&str>)
        ensures
            match r {
                Some(s) => restored(self@, current@) == Some(s@),
                None => restored(self@, current@) is None,
            },
    {
        match &self.written {
            Some(w) => {
                if str_eq(w.as_str(), current) {
                    Some(self.source.as_str())
                } else {
                    None
                }
            },
            None => None,
        }
    }
}

// ---------------------------------------------------------------------------
// Laws of the template.
// ---------------------------------------------------------------------------

/// The bytes split at `p` into two well-formed UTF-8 halves.
pub open spec fn splits_at(b: Seq<u8>, p: int) -> bool {
    0 <= p <= b.len() && vstd::utf8::valid_utf8(b.subrange(0, p)) && vstd::utf8::valid_utf8(
        b.subrange(p, b.len() as int),
    )
}

proof fn lemma_splits_at_ascii(b: Seq<u8>, p: int)
    requires
        vstd::utf8::valid_utf8(b),
        0 <= p <= b.len(),
        p == b.len() || b[p] < 0x80u8,
    ensures
        splits_at(b, p),
{
    if p == b.len() {
        assert(b.subrange(0, p) =~= b);
        assert(b.subrange(p, b.len() as int).len() == 0);
    } else {
        vstd::utf8::is_char_boundary_iff_not_is_continuation_byte(b, p);
        vstd::utf8::valid_utf8_split(b, p);
    }
}

proof fn lemma_splits_after_ascii(b: Seq<u8>, p: int)
    requires
        vstd::utf8::valid_utf8(b),
        0 < p <= b.len(),
        b[p - 1] < 0x80u8,
    ensures
        splits_at(b, p),
{
    lemma_splits_at_ascii(b, p - 1);
    let tail = b.subrange(p - 1, b.len() as int);
    assert(tail[0] == b[p - 1]);
    assert(vstd::utf8::length_of_first_scalar(tail) == 1);
    assert(vstd::utf8::pop_first_scalar(tail) =~= b.subrange(p, b.len() as int));
    let one = seq![b[p - 1]];
    assert(vstd::utf8::valid_first_scalar(one));
    assert(vstd::utf8::pop_first_scalar(one) =~= Seq::<u8>::empty());
    assert(vstd::utf8::valid_utf8(vstd::utf8::pop_first_scalar(one)));
    assert(vstd::utf8::valid_utf8(one));
    vstd::utf8::valid_utf8_concat(b.subrange(0, p - 1), one);
    assert(b.subrange(0, p - 1) + one =~= b.subrange(0, p));
}

proof fn lemma_tag_end_byte(b: Seq<u8>, i: int, q: Option<u8>)
    ensures
        tag_end_from(b, i, q) matches Some(e) ==> 0 <= e < b.len() && b[e] == 0x3Eu8,
    decreases b.len() - i,
{
    if 0 <= i < b.len() {
        let c = b[i];
        if q is None && (c == 0x27u8 || c == 0x22u8) {
            lemma_tag_end_byte(b, i + 1, Some(c));
        } else if q == Some(c) {
            lemma_tag_end_byte(b, i + 1, None);
        } else if c == 0x3Eu8 && q is None {
        } else {
            lemma_tag_end_byte(b, i + 1, q);
        }
    }
}

proof fn lemma_comment_close_byte(b: Seq<u8>, i: int)
    ensures
        comment_close_from(b, i) matches Some(j) ==> 0 <= j && j + 3 <= b.len() && b[j + 2] == 0x3Eu8,
    decreases b.len() - i,
{
    if 0 <= i && i + 3 <= b.len() && !(b[i] == 0x2Du8 && b[i + 1] == 0x2Du8 && b[i + 2] == 0x3Eu8) {
        lemma_comment_close_byte(b, i + 1);
    }
}

proof fn lemma_next_open_byte(b: Seq<u8>, i: int)
    requires
        0 <= i <= b.len(),
    ensures
        i <= next_open(b, i) <= b.len(),
        next_open(b, i) == b.len() || b[next_open(b, i)] == 0x3Cu8,
    decreases b.len() - i,
{
    if i < b.len() && b[i] != 0x3Cu8 {
        lemma_next_open_byte(b, i + 1);
    }
}

/// Every position the scanner stands at or records splits the markup into well-formed
/// halves, and each recorded range is ordered.
pub open spec fn positions_split(b: Seq<u8>, st: ScanState) -> bool {
    &&& splits_at(b, st.cursor)
    &&& forall|k: int| 0 <= k < st.visible.len() ==> splits_at(b, #[trigger] st.visible[k].0) && splits_at(b,
        st.visible[k].1) && st.visible[k].0 <= st.visible[k].1
    &&& (st.flow_start is Some <==> st.flow_end is Some)
    &&& (st.flow_start matches Some(a) ==> splits_at(b, a) && splits_at(b, st.flow_end->0) && a <= st.flow_end->0)
}

proof fn lemma_scan_step_positions(b: Seq<u8>, st: ScanState)
    requires
        vstd::utf8::valid_utf8(b),
        0 <= st.cursor < b.len(),
        positions_split(b, st),
    ensures
        scan_step(b, st) matches Some(n) ==> n.cursor <= b.len() && (st.cursor < n.cursor ==> positions_split(b, n)),
{
    if b[st.cursor] == 0x3Cu8 {
        let cursor = st.cursor;
        lemma_tag_end_byte(b, cursor + 1, None);
        if let Some(end) = tag_end_from(b, cursor + 1, None) {
            lemma_splits_after_ascii(b, end + 1);
            lemma_comment_close_byte(b, cursor + 4);
            if let Some(j) = comment_close_from(b, cursor + 4) {
                lemma_splits_after_ascii(b, j + 3);
            }
        }
    } else {
        lemma_next_open_byte(b, st.cursor);
        lemma_splits_at_ascii(b, next_open(b, st.cursor));
        if let Some(n) = scan_step(b, st) {
            assert forall|k: int| 0 <= k < n.visible.len() implies splits_at(b, #[trigger] n.visible[k].0)
                && splits_at(b, n.visible[k].1) && n.visible[k].0 <= n.visible[k].1 by {
                if k < st.visible.len() {
                    assert(n.visible[k] == st.visible[k]);
                }
            }
        }
    }
}

proof fn lemma_scan_positions(b: Seq<u8>, st: ScanState)
    requires
        vstd::utf8::valid_utf8(b),
        positions_split(b, st),
    ensures
        scan(b, st) matches Some(f) ==> positions_split(b, f),
    decreases b.len() - st.cursor,
{
    if 0 <= st.cursor < b.len() {
        lemma_scan_step_positions(b, st);
        if let Some(n) = scan_step(b, st) {
            if st.cursor < n.cursor <= b.len() {
                lemma_scan_positions(b, n);
            }
        }
    }
}

/// What `render` does with a template that `parse` gave: its range is ordered, lies inside
/// the host markup and on character boundaries, and every replacement is rendered as the
/// markup before the range, the escaped replacement and the markup after it, or refused
/// for its own shape or the total length.
pub proof fn law_parsed_template_renders_by_splicing(t: HtmlTextTemplate)
    requires
        parse_html(t.spec_original()) == Some((t.spec_source(), t.spec_start(), t.spec_end())),
    ensures
        ({
            let b = vstd::utf8::encode_utf8(t.spec_original());
            let (a, e) = (t.spec_start(), t.spec_end());
            &&& 0 <= a <= e <= b.len()
            &&& utf8_chars(b.subrange(0, a)) is Some
            &&& utf8_chars(b.subrange(e, b.len() as int)) is Some
            &&& forall|r: Seq<char>| #[trigger] render_html(b, a, e, r) == (if all_whitespace(r) || utf16_len(r)
                > MAX_TEXT_UNITS || has_layout_control(r) {
                None
            } else {
                let out = utf8_chars(b.subrange(0, a))->0 + escape(r) + utf8_chars(b.subrange(e, b.len() as int))->0;
                if utf16_len(out) > MAX_TEXT_UNITS { None } else { Some(out) }
            })
        }),
{
    law_render_splices(t.spec_original());
}

/// Rendering splices: a parsed template fixes a well-formed prefix and suffix of the host
/// markup around its source range, and every replacement is rendered as that prefix, the
/// escaped replacement and that suffix, or refused for its own shape or the total length.
pub proof fn law_render_splices(html: Seq<char>)
    requires
        parse_html(html) is Some,
    ensures
        ({
            let b = vstd::utf8::encode_utf8(html);
            let (src, a, e) = parse_html(html)->0;
            &&& 0 <= a <= e <= b.len()
            &&& utf8_chars(b.subrange(0, a)) is Some
            &&& utf8_chars(b.subrange(e, b.len() as int)) is Some
            &&& forall|r: Seq<char>| #[trigger] render_html(b, a, e, r) == (if all_whitespace(r) || utf16_len(r)
                > MAX_TEXT_UNITS || has_layout_control(r) {
                None
            } else {
                let out = utf8_chars(b.subrange(0, a))->0 + escape(r) + utf8_chars(b.subrange(e, b.len() as int))->0;
                if utf16_len(out) > MAX_TEXT_UNITS { None } else { Some(out) }
            })
        }),
{
    let b = vstd::utf8::encode_utf8(html);
    vstd::utf8::encode_utf8_valid_utf8(html);
    assert(b.subrange(0, b.len() as int) =~= b);
    assert(b.subrange(0, 0).len() == 0);
    assert(splits_at(b, 0));
    assert(positions_split(b, scan_start()));
    lemma_scan_positions(b, scan_start());
    let f = scan(b, scan_start())->0;
    if f.visible.len() == 1 && single_run_ok(f.visible[0].2) {
        assert(splits_at(b, f.visible[0].0));
    }
}

/// The scanner state `st` with every position moved `n` bytes on.
pub open spec fn shifted(st: ScanState, n: int) -> ScanState {
    ScanState {
        cursor: st.cursor + n,
        visible: st.visible.map_values(|v: (int, int, Seq<char>)| (v.0 + n, v.1 + n, v.2)),
        flow_start: match st.flow_start {
            Some(a) => Some(a + n),
            None => None,
        },
        flow_end: match st.flow_end {
            Some(a) => Some(a + n),
            None => None,
        },
        ..st
    }
}

pub open spec fn shifted_opt(o: Option<ScanState>, n: int) -> Option<ScanState> {
    match o {
        Some(st) => Some(shifted(st, n)),
        None => None,
    }
}

proof fn lemma_shift_tag_end(p: Seq<u8>, q: Seq<u8>, i: int, quote: Option<u8>)
    requires
        0 <= i,
    ensures
        match tag_end_from(q, i, quote) {
            Some(e) => tag_end_from(p + q, i + p.len(), quote) == Some(e + p.len()),
            None => tag_end_from(p + q, i + p.len(), quote) is None,
        },
    decreases q.len() - i,
{
    let b = p + q;
    let n = p.len() as int;
    if i < q.len() {
        assert(b[i + n] == q[i]);
        let c = q[i];
        if quote is None && (c == 0x27u8 || c == 0x22u8) {
            lemma_shift_tag_end(p, q, i + 1, Some(c));
            assert(i + n + 1 == (i + 1) + n);
        } else if quote == Some(c) {
            lemma_shift_tag_end(p, q, i + 1, None);
            assert(i + n + 1 == (i + 1) + n);
        } else if c == 0x3Eu8 && quote is None {
        } else {
            lemma_shift_tag_end(p, q, i + 1, quote);
            assert(i + n + 1 == (i + 1) + n);
        }
    }
}

proof fn lemma_shift_next_open(p: Seq<u8>, q: Seq<u8>, i: int)
    requires
        0 <= i,
    ensures
        next_open(p + q, i + p.len()) == next_open(q, i) + p.len(),
    decreases q.len() - i,
{
    let b = p + q;
    let n = p.len() as int;
    if i < q.len() {
        assert(b[i + n] == q[i]);
        if q[i] != 0x3Cu8 {
            lemma_shift_next_open(p, q, i + 1);
            assert(i + n + 1 == (i + 1) + n);
        }
    }
}

proof fn lemma_shift_comment_close(p: Seq<u8>, q: Seq<u8>, i: int)
    requires
        0 <= i,
    ensures
        match comment_close_from(q, i) {
            Some(j) => comment_close_from(p + q, i + p.len()) == Some(j + p.len()),
            None => comment_close_from(p + q, i + p.len()) is None,
        },
    decreases q.len() - i,
{
    let b = p + q;
    let n = p.len() as int;
    if i + 3 <= q.len() {
        assert(b[i + n] == q[i] && b[i + n + 1] == q[i + 1] && b[i + n + 2] == q[i + 2]);
        if !(q[i] == 0x2Du8 && q[i + 1] == 0x2Du8 && q[i + 2] == 0x3Eu8) {
            lemma_shift_comment_close(p, q, i + 1);
            assert(i + n + 1 == (i + 1) + n);
        }
    }
}

proof fn lemma_shift_piece(p: Seq<u8>, q: Seq<u8>, a: int, e: int)
    requires
        0 <= a,
    ensures
        piece(p + q, a + p.len(), e + p.len()) == piece(q, a, e),
{
    let n = p.len() as int;
    if a <= e <= q.len() {
        assert((p + q).subrange(a + n, e + n) =~= q.subrange(a, e));
    }
}

proof fn lemma_shift_tag_step(p: Seq<u8>, q: Seq<u8>, st: ScanState)
    requires
        0 <= st.cursor < q.len(),
    ensures
        tag_step(p + q, shifted(st, p.len() as int)) == shifted_opt(tag_step(q, st), p.len() as int),
{
    let b = p + q;
    let n = p.len() as int;
    let sh = shifted(st, n);
    let cursor = st.cursor;
    lemma_shift_tag_end(p, q, cursor + 1, None);
    assert(sh.cursor + 1 == (cursor + 1) + n);
    if let Some(end) = tag_end_from(q, cursor + 1, None) {
        lemma_shift_piece(p, q, cursor + 1, end);
        lemma_shift_comment_close(p, q, cursor + 4);
        assert(sh.cursor + 4 == (cursor + 4) + n);
        if cursor + 4 <= q.len() {
            assert(b.subrange(cursor + 4 + n, b.len() as int) =~= q.subrange(cursor + 4, q.len() as int));
        }
        if let Some(j) = comment_close_from(q, cursor + 4) {
            assert(j + n + 3 == (j + 3) + n);
        }
    }
}

proof fn lemma_shift_text_step(p: Seq<u8>, q: Seq<u8>, st: ScanState)
    requires
        0 <= st.cursor < q.len(),
    ensures
        text_step(p + q, shifted(st, p.len() as int)) == shifted_opt(text_step(q, st), p.len() as int),
{
    let n = p.len() as int;
    let sh = shifted(st, n);
    lemma_shift_next_open(p, q, st.cursor);
    let end = next_open(q, st.cursor);
    lemma_shift_piece(p, q, st.cursor, end);
    if st.suppressed is None {
        if let Some(text) = piece(q, st.cursor, end) {
            let shown = !all_whitespace(text);
            if shown {
                assert(sh.visible.push((sh.cursor, end + n, text)) =~= st.visible.push((st.cursor, end, text)).map_values(
                    |v: (int, int, Seq<char>)| (v.0 + n, v.1 + n, v.2),
                ));
            }
        }
    }
}

proof fn lemma_shift_scan(p: Seq<u8>, q: Seq<u8>, st: ScanState)
    requires
        0 <= st.cursor,
    ensures
        scan(p + q, shifted(st, p.len() as int)) == shifted_opt(scan(q, st), p.len() as int),
    decreases q.len() - st.cursor,
{
    let b = p + q;
    let n = p.len() as int;
    if st.cursor < q.len() {
        assert(b[st.cursor + n] == q[st.cursor]);
        lemma_shift_tag_step(p, q, st);
        lemma_shift_text_step(p, q, st);
        if let Some(nx) = scan_step(q, st) {
            if st.cursor < nx.cursor <= q.len() {
                lemma_shift_scan(p, q, nx);
            }
        }
    }
}

pub proof fn lemma_encode_concat(a: Seq<char>, c: Seq<char>)
    ensures
        vstd::utf8::encode_utf8(a + c) == vstd::utf8::encode_utf8(a) + vstd::utf8::encode_utf8(c),
    decreases a.len(),
{
    if a.len() == 0 {
        assert(a + c =~= c);
        assert(vstd::utf8::encode_utf8(a) + vstd::utf8::encode_utf8(c) =~= vstd::utf8::encode_utf8(c));
    } else {
        assert((a + c)[0] == a[0]);
        assert((a + c).drop_first() =~= a.drop_first() + c);
        lemma_encode_concat(a.drop_first(), c);
        assert(vstd::utf8::encode_utf8(a + c) =~= vstd::utf8::encode_scalar(a[0] as u32) + (vstd::utf8::encode_utf8(
            a.drop_first(),
        ) + vstd::utf8::encode_utf8(c)));
    }
}

proof fn lemma_scalar_bytes_not_open(c: char)
    requires
        c != '<',
    ensures
        forall|k: int| 0 <= k < vstd::utf8::encode_scalar(c as u32).len() ==> #[trigger] vstd::utf8::encode_scalar(
            c as u32,
        )[k] != 0x3Cu8,
{
    let v = c as u32;
    vstd::utf8::char_u32_cast(c, v);
    vstd::utf8::char_u32_cast('<', 0x3Cu32);
    assert(v != 0x3Cu32);
    assert(v <= 0x7F && v != 0x3C ==> (v & 0x7F) as u8 != 0x3Cu8) by (bit_vector);
    assert(0xC0u8 | ((v >> 6) & 0x1F) as u8 != 0x3Cu8) by (bit_vector);
    assert(0xE0u8 | ((v >> 12) & 0x0F) as u8 != 0x3Cu8) by (bit_vector);
    assert(0xF0u8 | ((v >> 18) & 0x7) as u8 != 0x3Cu8) by (bit_vector);
    assert(0x80u8 | (v & 0x3F) as u8 != 0x3Cu8) by (bit_vector);
    assert(0x80u8 | ((v >> 6) & 0x3F) as u8 != 0x3Cu8) by (bit_vector);
    assert(0x80u8 | ((v >> 12) & 0x3F) as u8 != 0x3Cu8) by (bit_vector);
}

proof fn lemma_encode_no_open(s: Seq<char>)
    requires
        !s.contains('<'),
    ensures
        forall|k: int| 0 <= k < vstd::utf8::encode_utf8(s).len() ==> #[trigger] vstd::utf8::encode_utf8(s)[k] != 0x3Cu8,
    decreases s.len(),
{
    if s.len() > 0 {
        assert(s[0] != '<');
        lemma_scalar_bytes_not_open(s[0]);
        assert(!s.drop_first().contains('<')) by {
            if s.drop_first().contains('<') {
                let k = choose|k: int| 0 <= k < s.drop_first().len() && s.drop_first()[k] == '<';
                assert(s[k + 1] == '<');
            }
        }
        lemma_encode_no_open(s.drop_first());
        let head = vstd::utf8::encode_scalar(s[0] as u32);
        let rest = vstd::utf8::encode_utf8(s.drop_first());
        assert(vstd::utf8::encode_utf8(s) == head + rest);
        assert forall|k: int| 0 <= k < (head + rest).len() implies #[trigger] (head + rest)[k] != 0x3Cu8 by {
            if k < head.len() {
                assert((head + rest)[k] == head[k]);
            } else {
                assert((head + rest)[k] == rest[k - head.len()]);
            }
        }
    }
}

proof fn lemma_next_open_skips(b: Seq<u8>, i: int, j: int)
    requires
        0 <= i <= j < b.len(),
        b[j] == 0x3Cu8,
        forall|m: int| i <= m < j ==> b[m] != 0x3Cu8,
    ensures
        next_open(b, i) == j,
    decreases j - i,
{
    if i < j {
        lemma_next_open_skips(b, i + 1, j);
    }
}

/// `<style>`.
pub open spec fn style_open() -> Seq<char> {
    seq!['<', 's', 't', 'y', 'l', 'e', '>']
}

/// `</style>`.
pub open spec fn style_close() -> Seq<char> {
    seq!['<', '/', 's', 't', 'y', 'l', 'e', '>']
}

/// A `<style>` element holding `css`.
pub open spec fn style_block(css: Seq<char>) -> Seq<char> {
    style_open() + css + style_close()
}

/// The source text a parse gives, if any.
pub open spec fn parsed_source(html: Seq<char>) -> Option<Seq<char>> {
    match parse_html(html) {
        Some(t) => Some(t.0),
        None => None,
    }
}

/// `style`.
pub open spec fn style_word() -> Seq<char> {
    seq!['s', 't', 'y', 'l', 'e']
}

/// The bytes of `<style>` and `</style>`.
pub open spec fn style_open_bytes() -> Seq<u8> {
    seq![0x3Cu8, 0x73u8, 0x74u8, 0x79u8, 0x6Cu8, 0x65u8, 0x3Eu8]
}

pub open spec fn style_close_bytes() -> Seq<u8> {
    seq![0x3Cu8, 0x2Fu8, 0x73u8, 0x74u8, 0x79u8, 0x6Cu8, 0x65u8, 0x3Eu8]
}

proof fn lemma_style_word()
    ensures
        trim(style_word()) == style_word(),
        !starts_with(style_word(), seq!['!', '-', '-']),
        strip_slashes(style_word()) == style_word(),
        trim_start(style_word()) == style_word(),
        name_end_from(style_word(), 0) == 5,
        lower(style_word().take(5)) == style_word(),
        is_raw_text_name(style_word()),
        !is_void_name(style_word()),
        !is_inline_flow_name(style_word()),
        style_word().last() != '/',
{
    let word = style_word();
    assert(trim_start(word) == word);
    assert(trim(word) == word) by {
        reveal_with_fuel(crate::unicode::trim_end, 2);
    }
    assert(!starts_with(word, seq!['!', '-', '-'])) by {
        if starts_with(word, seq!['!', '-', '-']) {
            assert(word.take(3)[0] == '!');
        }
    }
    reveal_with_fuel(name_end_from, 6);
    assert(word.take(5) =~= word);
    assert(lower(word) =~= word);
    assert(word != seq!['e', 'm', 'b', 'e', 'd']) by {
        assert(word[0] != 'e');
    }
    assert(word != seq!['i', 'n', 'p', 'u', 't']) by {
        assert(word[0] != 'i');
    }
    assert(word != seq!['p', 'a', 'r', 'a', 'm']) by {
        assert(word[0] != 'p');
    }
    assert(word != seq!['t', 'r', 'a', 'c', 'k']) by {
        assert(word[0] != 't');
    }
    assert(word != seq!['s', 'm', 'a', 'l', 'l']) by {
        assert(word[1] != 'm');
    }
}

proof fn lemma_closing_word()
    ensures
        trim(seq!['/', 's', 't', 'y', 'l', 'e']) == seq!['/', 's', 't', 'y', 'l', 'e'],
        !starts_with(seq!['/', 's', 't', 'y', 'l', 'e'], seq!['!', '-', '-']),
        strip_slashes(seq!['/', 's', 't', 'y', 'l', 'e']) == style_word(),
{
    let closing = seq!['/', 's', 't', 'y', 'l', 'e'];
    assert(trim_start(closing) == closing);
    assert(trim(closing) == closing) by {
        reveal_with_fuel(crate::unicode::trim_end, 2);
    }
    assert(!starts_with(closing, seq!['!', '-', '-'])) by {
        if starts_with(closing, seq!['!', '-', '-']) {
            assert(closing.take(3)[0] == '!');
        }
    }
    assert(strip_slashes(closing) == style_word()) by {
        reveal_with_fuel(strip_slashes, 2);
        assert(closing.drop_first() =~= style_word());
    }
}

proof fn lemma_ascii_piece(b: Seq<u8>, a: int, w: Seq<char>)
    requires
        vstd::utf8::is_ascii_chars(w),
        0 <= a,
        a + w.len() <= b.len(),
        forall|i: int| 0 <= i < w.len() ==> b[a + i] == #[trigger] w[i] as u8,
    ensures
        piece(b, a, a + w.len()) == Some(w),
{
    vstd::utf8::is_ascii_chars_encode_utf8(w);
    vstd::utf8::encode_utf8_valid_utf8(w);
    vstd::utf8::encode_utf8_decode_utf8(w);
    assert(b.subrange(a, a + w.len()) =~= vstd::utf8::encode_utf8(w));
}

proof fn lemma_style_open_step(b: Seq<u8>)
    requires
        b.len() >= 7,
        b.subrange(0, 7) == style_open_bytes(),
    ensures
        scan_step(b, scan_start()) == Some(
            ScanState { cursor: 7, suppressed: Some(style_word()), stack: seq![style_word()], ..scan_start() },
        ),
{
    assert forall|i: int| 0 <= i < 7 implies b[i] == #[trigger] style_open_bytes()[i] by {
        assert(b[i] == b.subrange(0, 7)[i]);
    }
    reveal_with_fuel(tag_end_from, 8);
    assert(tag_end_from(b, 1, None) == Some(6int));
    let word = style_word();
    assert(vstd::utf8::is_ascii_chars(word));
    lemma_ascii_piece(b, 1, word);
    lemma_style_word();
}

proof fn lemma_style_close_step(b: Seq<u8>, st: ScanState)
    requires
        0 <= st.cursor,
        st.cursor + 8 <= b.len(),
        b.subrange(st.cursor, st.cursor + 8) == style_close_bytes(),
        st.suppressed == Some(style_word()),
        st.stack == seq![style_word()],
    ensures
        scan_step(b, st) == Some(ScanState { cursor: st.cursor + 8, suppressed: None, stack: seq![], ..st }),
{
    let at = st.cursor;
    assert forall|i: int| 0 <= i < 8 implies b[at + i] == #[trigger] style_close_bytes()[i] by {
        assert(b[at + i] == b.subrange(at, at + 8)[i]);
    }
    assert(tag_end_from(b, at + 1, None) == Some(at + 7)) by {
        reveal_with_fuel(tag_end_from, 8);
    }
    let closing = seq!['/', 's', 't', 'y', 'l', 'e'];
    assert(vstd::utf8::is_ascii_chars(closing));
    lemma_ascii_piece(b, at + 1, closing);
    lemma_closing_word();
    lemma_style_word();
    assert(seq![style_word()].drop_last() =~= Seq::<Seq<char>>::empty());
}

proof fn lemma_style_bytes(css: Seq<char>, q: Seq<u8>)
    requires
        !css.contains('<'),
    ensures
        ({
            let p = vstd::utf8::encode_utf8(style_block(css));
            let b = p + q;
            let k = vstd::utf8::encode_utf8(css).len() as int;
            &&& p.len() == 15 + k
            &&& b.subrange(0, 7) == style_open_bytes()
            &&& b.subrange(7 + k, 15 + k) == style_close_bytes()
            &&& forall|i: int| 7 <= i < 7 + k ==> b[i] != 0x3Cu8
        }),
{
    let o = vstd::utf8::encode_utf8(style_open());
    let m = vstd::utf8::encode_utf8(css);
    let c = vstd::utf8::encode_utf8(style_close());
    lemma_encode_concat(style_open() + css, style_close());
    lemma_encode_concat(style_open(), css);
    let p = vstd::utf8::encode_utf8(style_block(css));
    assert(p == o + m + c);
    let b = p + q;
    let k = m.len() as int;
    assert(vstd::utf8::is_ascii_chars(style_open()));
    assert(vstd::utf8::is_ascii_chars(style_close()));
    vstd::utf8::is_ascii_chars_encode_utf8(style_open());
    vstd::utf8::is_ascii_chars_encode_utf8(style_close());
    assert(o =~= style_open_bytes());
    assert(c =~= style_close_bytes());
    assert(b.subrange(0, 7) =~= o);
    assert(b.subrange(7 + k, 15 + k) =~= c);
    lemma_encode_no_open(css);
    assert forall|i: int| 7 <= i < 7 + k implies b[i] != 0x3Cu8 by {
        assert(b[i] == m[i - 7]);
    }
}

proof fn lemma_style_scan(css: Seq<char>, q: Seq<u8>)
    requires
        !css.contains('<'),
    ensures
        ({
            let p = vstd::utf8::encode_utf8(style_block(css));
            scan(p + q, scan_start()) == scan(p + q, shifted(scan_start(), p.len() as int))
        }),
{
    lemma_style_bytes(css, q);
    let p = vstd::utf8::encode_utf8(style_block(css));
    let b = p + q;
    let k = vstd::utf8::encode_utf8(css).len() as int;
    let n = p.len() as int;
    let st0 = scan_start();
    lemma_style_open_step(b);
    let st1 = ScanState { cursor: 7, suppressed: Some(style_word()), stack: seq![style_word()], ..st0 };
    assert(b[7 + k] == b.subrange(7 + k, 15 + k)[0]);
    lemma_next_open_skips(b, 7, 7 + k);
    let st2 = ScanState { cursor: 7 + k, ..st1 };
    if k > 0 {
        assert(scan_step(b, st1) == Some(st2));
        assert(scan(b, st1) == scan(b, st2));
    } else {
        assert(st1 == st2);
    }
    lemma_style_close_step(b, st2);
    let st3 = ScanState { cursor: 15 + k, suppressed: None, stack: seq![], ..st2 };
    assert(shifted(st0, n).visible =~= st0.visible);
    assert(st3 == shifted(st0, n));
    assert(scan(b, st0) == scan(b, st1));
    assert(scan(b, st2) == scan(b, st3));
}

/// A leading `<style>` element whose CSS holds no `<` leaves the parsed source text as it
/// is: style contents are never translatable text.
pub proof fn law_style_block_keeps_the_source(css: Seq<char>, body: Seq<char>)
    requires
        !css.contains('<'),
        utf16_len(style_block(css) + body) <= MAX_TEXT_UNITS,
    ensures
        parsed_source(style_block(css) + body) == parsed_source(body),
        parse_html(style_block(css) + body) is Some <==> parse_html(body) is Some,
        parse_html(body) is Some ==> (parse_html(style_block(css) + body)->0).0 == (parse_html(body)->0).0,
{
    let p = vstd::utf8::encode_utf8(style_block(css));
    let q = vstd::utf8::encode_utf8(body);
    lemma_encode_concat(style_block(css), body);
    crate::unicode::lemma_utf16_concat(style_block(css), body);
    lemma_style_scan(css, q);
    lemma_shift_scan(p, q, scan_start());
    let n = p.len() as int;
    match scan(q, scan_start()) {
        Some(f) => {
            let g = shifted(f, n);
            assert(g.visible.len() == f.visible.len());
            if f.visible.len() > 0 {
                assert(g.visible[0].2 == f.visible[0].2);
            }
        },
        None => {},
    }
}

/// Markup that is skipped, `<md>`: a declaration (`m` is `!`), such as `<!DOCTYPE html>`,
/// or a processing instruction (`m` is `?`), such as `<?xml version="1.0"?>`.
pub open spec fn skipped_markup(m: char, d: Seq<char>) -> Seq<char> {
    seq!['<', m] + d + seq!['>']
}

/// A markup declaration `<!d>`, such as `<!DOCTYPE html>`.
pub open spec fn declaration(d: Seq<char>) -> Seq<char> {
    skipped_markup('!', d)
}

/// A parse result with its byte range moved `n` bytes on.
pub open spec fn shifted_template(t: Option<(Seq<char>, int, int)>, n: int) -> Option<(Seq<char>, int, int)> {
    match t {
        Some((src, a, e)) => Some((src, a + n, e + n)),
        None => None,
    }
}

proof fn lemma_tag_end_plain(b: Seq<u8>, i: int, j: int)
    requires
        0 <= i <= j < b.len(),
        b[j] == 0x3Eu8,
        forall|m: int| i <= m < j ==> b[m] != 0x27u8 && b[m] != 0x22u8 && b[m] != 0x3Eu8,
    ensures
        tag_end_from(b, i, None) == Some(j),
    decreases j - i,
{
    if i < j {
        lemma_tag_end_plain(b, i + 1, j);
    }
}

proof fn lemma_template_shift(f: ScanState, n: int)
    ensures
        template_of(shifted(f, n)) == shifted_template(template_of(f), n),
{
    let g = shifted(f, n);
    assert(g.visible.len() == f.visible.len());
    if f.visible.len() > 0 {
        assert(g.visible[0] == (f.visible[0].0 + n, f.visible[0].1 + n, f.visible[0].2));
    }
}

proof fn lemma_skipped_markup_step(mark: char, d: Seq<char>, q: Seq<u8>)
    requires
        mark == '!' || mark == '?',
        !d.contains('>'),
        !d.contains('\''),
        !d.contains('"'),
        mark == '?' || !(d.len() >= 2 && d[0] == '-' && d[1] == '-'),
    ensures
        ({
            let p = vstd::utf8::encode_utf8(skipped_markup(mark, d));
            &&& p.len() > 0
            &&& scan(p + q, scan_start()) == scan(p + q, shifted(scan_start(), p.len() as int))
        }),
{
    let open = seq!['<', mark];
    let close = seq!['>'];
    let w = seq![mark] + d;
    let m = vstd::utf8::encode_utf8(d);
    let k = m.len() as int;
    lemma_encode_concat(open + d, close);
    lemma_encode_concat(open, d);
    lemma_encode_concat(seq![mark], d);
    assert(vstd::utf8::is_ascii_chars(open));
    assert(vstd::utf8::is_ascii_chars(close));
    assert(vstd::utf8::is_ascii_chars(seq![mark]));
    vstd::utf8::is_ascii_chars_encode_utf8(open);
    vstd::utf8::is_ascii_chars_encode_utf8(close);
    vstd::utf8::is_ascii_chars_encode_utf8(seq![mark]);
    let eo = vstd::utf8::encode_utf8(open);
    let ec = vstd::utf8::encode_utf8(close);
    let p = vstd::utf8::encode_utf8(skipped_markup(mark, d));
    assert(p == eo + m + ec);
    let b = p + q;
    let n = p.len() as int;
    assert(n == k + 3);
    assert(b[0] == 0x3Cu8);
    assert(b[1] == mark as u8);
    assert(b[1] != 0x27u8 && b[1] != 0x22u8 && b[1] != 0x3Eu8);
    assert(b[k + 2] == 0x3Eu8);
    crate::unicode::lemma_encode_avoids_ascii(d, '>', 0x3Eu8);
    crate::unicode::lemma_encode_avoids_ascii(d, '\'', 0x27u8);
    crate::unicode::lemma_encode_avoids_ascii(d, '"', 0x22u8);
    assert forall|j: int| 1 <= j < k + 2 implies b[j] != 0x27u8 && b[j] != 0x22u8 && b[j] != 0x3Eu8 by {
        if j >= 2 {
            assert(b[j] == m[j - 2]);
        }
    }
    lemma_tag_end_plain(b, 1, k + 2);
    let ew = vstd::utf8::encode_utf8(w);
    assert(b.subrange(1, k + 2) =~= ew);
    vstd::utf8::encode_utf8_valid_utf8(w);
    vstd::utf8::encode_utf8_decode_utf8(w);
    assert(piece(b, 1, k + 2) == Some(w));
    assert(trim_start(w) == w);
    crate::unicode::lemma_trim_end_prefix(w);
    let tag = trim(w);
    assert(tag.len() > 0 && tag[0] == mark);
    assert(!starts_with(tag, seq!['!', '-', '-'])) by {
        if starts_with(tag, seq!['!', '-', '-']) {
            assert(tag.take(3)[0] == tag[0]);
            assert(tag.take(3)[1] == '-' && tag.take(3)[2] == '-');
            assert(tag[1] == w[1] && tag[2] == w[2]);
            assert(w[1] == d[0] && w[2] == d[1]);
        }
    }
    let st0 = scan_start();
    let st1 = ScanState { cursor: n, ..st0 };
    assert(scan_step(b, st0) == Some(st1));
    assert(shifted(st0, n).visible =~= st0.visible);
    assert(st1 == shifted(st0, n));
    assert(scan(b, st0) == scan(b, st1));
}

/// Markup declarations other than comments, such as the `<!DOCTYPE html>` that Qt's own
/// `toHtml()` starts with, are skipped: markup after a declaration `<!d>` parses to the same
/// source text as on its own, with its byte range moved by the declaration's length.
pub proof fn law_declarations_are_skipped(d: Seq<char>, html: Seq<char>)
    requires
        !d.contains('>'),
        !d.contains('\''),
        !d.contains('"'),
        !(d.len() >= 2 && d[0] == '-' && d[1] == '-'),
        utf16_len(declaration(d) + html) <= MAX_TEXT_UNITS,
    ensures
        parse_html(declaration(d) + html) == shifted_template(
            parse_html(html),
            vstd::utf8::encode_utf8(declaration(d)).len() as int,
        ),
        parsed_source(declaration(d) + html) == parsed_source(html),
{
    let p = vstd::utf8::encode_utf8(declaration(d));
    let q = vstd::utf8::encode_utf8(html);
    let n = p.len() as int;
    lemma_encode_concat(declaration(d), html);
    crate::unicode::lemma_utf16_concat(declaration(d), html);
    lemma_skipped_markup_step('!', d, q);
    lemma_shift_scan(p, q, scan_start());
    match scan(q, scan_start()) {
        Some(f) => {
            lemma_template_shift(f, n);
        },
        None => {},
    }
}

/// Processing instructions, such as `<?xml version="1.0"?>`, are skipped the same way:
/// markup after `<?d>` parses to the same source text, its byte range moved by the
/// instruction's length.
pub proof fn law_processing_instructions_are_skipped(d: Seq<char>, html: Seq<char>)
    requires
        !d.contains('>'),
        !d.contains('\''),
        !d.contains('"'),
        utf16_len(skipped_markup('?', d) + html) <= MAX_TEXT_UNITS,
    ensures
        parse_html(skipped_markup('?', d) + html) == shifted_template(
            parse_html(html),
            vstd::utf8::encode_utf8(skipped_markup('?', d)).len() as int,
        ),
{
    let p = vstd::utf8::encode_utf8(skipped_markup('?', d));
    let q = vstd::utf8::encode_utf8(html);
    let n = p.len() as int;
    lemma_encode_concat(skipped_markup('?', d), html);
    crate::unicode::lemma_utf16_concat(skipped_markup('?', d), html);
    lemma_skipped_markup_step('?', d, q);
    lemma_shift_scan(p, q, scan_start());
    match scan(q, scan_start()) {
        Some(f) => {
            lemma_template_shift(f, n);
        },
        None => {},
    }
}

} // verus!



