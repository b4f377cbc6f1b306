//! Observing Unicode console writes: terminal protocol sequences are removed and
//! each visible line is offered for observation; the write itself is never changed.
use vstd::prelude::*;
use crate::unicode::{
    chars_of, decode_utf16, encode_utf16, is_control, is_control_char, string_of, trim, trim_chars,
    utf16, utf16_decode,
};

verus! {

pub const MAX_TEXT_UNITS: usize = 16_384;

pub open spec fn is_final_csi_byte(c: char) -> bool {
    0x40 <= (c as u32) <= 0x7E
}

/// Index just past a control sequence whose parameters start at `i`.
pub open spec fn csi_end(s: Seq<char>, i: int) -> int
    decreases s.len() - i,
{
    if i < 0 || i >= s.len() {
        s.len() as int
    } else if is_final_csi_byte(s[i]) {
        i + 1
    } else {
        csi_end(s, i + 1)
    }
}

/// Index just past a control string (OSC, DCS, SOS, PM, APC) whose body starts at `i`:
/// it ends at BEL, ST, or ESC `\`.
pub open spec fn control_string_end(s: Seq<char>, i: int) -> int
    decreases s.len() - i,
{
    if i < 0 || i >= s.len() {
        s.len() as int
    } else if s[i] == '\u{7}' || s[i] == '\u{9c}' {
        i + 1
    } else if s[i] == '\u{1b}' && i + 1 < s.len() && s[i + 1] == '\\' {
        i + 2
    } else {
        control_string_end(s, i + 1)
    }
}

/// Index just past an escape sequence whose first character after ESC is at `i`.
pub open spec fn escape_end(s: Seq<char>, i: int) -> int {
    if i < 0 || i >= s.len() {
        s.len() as int
    } else if s[i] == '[' {
        csi_end(s, i + 1)
    } else if s[i] == 'P' || s[i] == 'X' || s[i] == ']' || s[i] == '^' || s[i] == '_' {
        control_string_end(s, i + 1)
    } else {
        i + 1
    }
}

pub open spec fn is_c1_string_start(c: char) -> bool {
    c == '\u{90}' || c == '\u{98}' || c == '\u{9d}' || c == '\u{9e}' || c == '\u{9f}'
}

/// Index just past the protocol item (or character) at `i`.
pub open spec fn item_end(s: Seq<char>, i: int) -> int {
    let c = s[i];
    if c == '\u{1b}' {
        escape_end(s, i + 1)
    } else if c == '\u{9b}' {
        csi_end(s, i + 1)
    } else if is_c1_string_start(c) {
        control_string_end(s, i + 1)
    } else {
        i + 1
    }
}

/// What the character at `i` contributes to the visible text.
pub open spec fn item_text(c: char) -> Seq<char> {
    if c == '\u{1b}' || c == '\u{9b}' || is_c1_string_start(c) {
        seq![]
    } else if c == '\r' || c == '\n' {
        seq![c]
    } else if c == '\t' {
        seq![' ']
    } else if is_control(c) {
        seq![]
    } else {
        seq![c]
    }
}

/// The visible text of `s` from index `i` on.
pub open spec fn visible_from(s: Seq<char>, i: int) -> Seq<char>
    decreases s.len() - i,
{
    if i < 0 || i >= s.len() {
        seq![]
    } else {
        let e = item_end(s, i);
        if i < e <= s.len() {
            item_text(s[i]) + visible_from(s, e)
        } else {
            seq![]
        }
    }
}

pub open spec fn visible_text(s: Seq<char>) -> Seq<char> {
    visible_from(s, 0)
}

pub proof fn lemma_csi_end(s: Seq<char>, i: int)
    requires
        0 <= i <= s.len(),
    ensures
        i <= csi_end(s, i) <= s.len(),
    decreases s.len() - i,
{
    if i < s.len() && !is_final_csi_byte(s[i]) {
        lemma_csi_end(s, i + 1);
    }
}

pub proof fn lemma_control_string_end(s: Seq<char>, i: int)
    requires
        0 <= i <= s.len(),
    ensures
        i <= control_string_end(s, i) <= s.len(),
    decreases s.len() - i,
{
    if i < s.len() && !(s[i] == '\u{7}' || s[i] == '\u{9c}') && !(s[i] == '\u{1b}' && i + 1 < s.len()
        && s[i + 1] == '\\') {
        lemma_control_string_end(s, i + 1);
    }
}

pub proof fn lemma_item_end(s: Seq<char>, i: int)
    requires
        0 <= i < s.len(),
    ensures
        i < item_end(s, i) <= s.len(),
{
    lemma_csi_end(s, i + 1);
    lemma_control_string_end(s, i + 1);
    if i + 1 < s.len() {
        lemma_csi_end(s, i + 2);
        lemma_control_string_end(s, i + 2);
    }
}

/// No character is a control character, line breaks apart: text the console shows as it is.
pub open spec fn plain_console_text(s: Seq<char>) -> bool {
    forall|k: int| 0 <= k < s.len() ==> !is_control(#[trigger] s[k]) || s[k] == '\r' || s[k] == '\n'
}

proof fn lemma_visible_from_plain(s: Seq<char>, i: int)
    requires
        0 <= i <= s.len(),
    ensures
        plain_console_text(visible_from(s, i)),
        plain_console_text(s) ==> visible_from(s, i) == s.subrange(i, s.len() as int),
    decreases s.len() - i,
{
    if i < s.len() {
        lemma_item_end(s, i);
        let e = item_end(s, i);
        lemma_visible_from_plain(s, e);
        let t = item_text(s[i]);
        let rest = visible_from(s, e);
        assert(plain_console_text(t));
        assert forall|k: int| 0 <= k < (t + rest).len() implies !is_control(#[trigger] (t + rest)[k]) || (t
            + rest)[k] == '\r' || (t + rest)[k] == '\n' by {
            if k < t.len() {
                assert((t + rest)[k] == t[k]);
            } else {
                assert((t + rest)[k] == rest[k - t.len()]);
            }
        }
        if plain_console_text(s) {
            let c = s[i];
            assert(!is_control(c) || c == '\r' || c == '\n');
            assert(e == i + 1);
            assert(t =~= seq![c]);
            assert(seq![c] + s.subrange(i + 1, s.len() as int) =~= s.subrange(i, s.len() as int));
        }
    } else {
        assert(s.subrange(i, s.len() as int) =~= Seq::<char>::empty());
    }
}

/// The visible text holds no control character but line breaks; text that holds none is
/// kept as it is; and so taking the visible text twice changes nothing.
pub proof fn law_visible_text_is_plain_and_stable(s: Seq<char>)
    ensures
        plain_console_text(visible_text(s)),
        plain_console_text(s) ==> visible_text(s) == s,
        visible_text(visible_text(s)) == visible_text(s),
{
    lemma_visible_from_plain(s, 0);
    lemma_visible_from_plain(visible_text(s), 0);
    assert(s.subrange(0, s.len() as int) =~= s);
    assert(visible_text(s).subrange(0, visible_text(s).len() as int) =~= visible_text(s));
}

fn consume_csi(s: &[char], start: usize) -> (r: usize)
    requires
        start <= s.len(),
    ensures
        r as int == csi_end(s@, start as int),
{
    let mut i = start;
    while i < s.len() && !(0x40 <= (s[i] as u32) && (s[i] as u32) <= 0x7E)
        invariant
            start <= i <= s.len(),
            csi_end(s@, start as int) == csi_end(s@, i as int),
        decreases s.len() - i,
    {
        i += 1;
    }
    if i < s.len() {
        i + 1
    } else {
        i
    }
}

fn consume_control_string(s: &[char], start: usize) -> (r: usize)
    requires
        start <= s.len(),
    ensures
        r as int == control_string_end(s@, start as int),
{
    let mut i = start;
    while i < s.len()
        invariant
            start <= i <= s.len(),
            control_string_end(s@, start as int) == control_string_end(s@, i as int),
        decreases s.len() - i,
    {
        let c = s[i];
        if c == '\u{7}' || c == '\u{9c}' {
            return i + 1;
        }
        if c == '\u{1b}' && i + 1 < s.len() && s[i + 1] == '\\' {
            return i + 2;
        }
        i += 1;
    }
    i
}

fn consume_escape(s: &[char], start: usize) -> (r: usize)
    requires
        start <= s.len(),
    ensures
        r as int == escape_end(s@, start as int),
{
    if start >= s.len() {
        return s.len();
    }
    let c = s[start];
    if c == '[' {
        consume_csi(s, start + 1)
    } else if c == 'P' || c == 'X' || c == ']' || c == '^' || c == '_' {
        consume_control_string(s, start + 1)
    } else {
        start + 1
    }
}

/// Removes terminal protocol sequences while preserving text that is actually visible.
pub fn visible_console_text(source: &str) -> (r: String)
    ensures
        r@ == visible_text(source@),
{
    let s = chars_of(source);
    let mut out: Vec<char> = Vec::new();
    let mut i: usize = 0;
    while i < s.len()
        invariant
            i <= s.len(),
            s@ == source@,
            visible_text(s@) == out@ + visible_from(s@, i as int),
        decreases s.len() - i,
    {
        proof {
            lemma_item_end(s@, i as int);
        }
        let c = s[i];
        let ghost prev = out@;
        let next = if c == '\u{1b}' {
            consume_escape(&s, i + 1)
        } else if c == '\u{9b}' {
            consume_csi(&s, i + 1)
        } else if c == '\u{90}' || c == '\u{98}' || c == '\u{9d}' || c == '\u{9e}' || c == '\u{9f}' {
            consume_control_string(&s, i + 1)
        } else {
            if c == '\r' || c == '\n' {
                out.push(c);
            } else if c == '\t' {
                out.push(' ');
            } else if !is_control_char(c) {
                out.push(c);
            }
            i + 1
        };
        assert(out@ == prev + item_text(c));
        i = next;
    }
    string_of(&out)
}

// ---------------------------------------------------------------------------
// Lines offered for observation.
// ---------------------------------------------------------------------------

/// The trimmed, non-empty pieces of `s` between CR/LF separators, scanning from `i`
/// with the current piece `cur`.
pub open spec fn segments_from(s: Seq<char>, i: int, cur: Seq<char>) -> Seq<Seq<char>>
    decreases s.len() - i,
{
    if i < 0 || i >= s.len() {
        if trim(cur).len() > 0 { seq![trim(cur)] } else { seq![] }
    } else if s[i] == '\r' || s[i] == '\n' {
        (if trim(cur).len() > 0 { seq![trim(cur)] } else { seq![] }) + segments_from(s, i + 1, seq![])
    } else {
        segments_from(s, i + 1, cur.push(s[i]))
    }
}

/// A line as it is observed: non-empty, trimmed, and holding neither CR nor LF.
pub open spec fn is_line(line: Seq<char>) -> bool {
    &&& line.len() > 0
    &&& trim(line) == line
    &&& !line.contains('\r')
    &&& !line.contains('\n')
}

/// The pieces of `s` from `i` on, with the current piece `cur`, are lines when `cur` holds
/// neither CR nor LF.
proof fn lemma_segments_are_lines(s: Seq<char>, i: int, cur: Seq<char>)
    requires
        !cur.contains('\r'),
        !cur.contains('\n'),
    ensures
        forall|k: int| 0 <= k < segments_from(s, i, cur).len() ==> is_line(#[trigger] segments_from(s, i, cur)[k]),
    decreases s.len() - i,
{
    crate::unicode::lemma_trim_avoids(cur, '\r');
    crate::unicode::lemma_trim_avoids(cur, '\n');
    crate::unicode::lemma_trim_idempotent(cur);
    let head: Seq<Seq<char>> = if trim(cur).len() > 0 { seq![trim(cur)] } else { seq![] };
    assert forall|k: int| 0 <= k < head.len() implies is_line(#[trigger] head[k]) by {
        assert(head[k] == trim(cur));
    }
    if i < 0 || i >= s.len() {
        assert(segments_from(s, i, cur) == head);
    } else if s[i] == '\r' || s[i] == '\n' {
        lemma_segments_are_lines(s, i + 1, seq![]);
        let tail = segments_from(s, i + 1, seq![]);
        assert(segments_from(s, i, cur) == head + tail);
        assert forall|k: int| 0 <= k < (head + tail).len() implies is_line(#[trigger] (head + tail)[k]) by {
            if k >= head.len() {
                assert((head + tail)[k] == tail[k - head.len()]);
            } else {
                assert((head + tail)[k] == head[k]);
            }
        }
    } else {
        let next = cur.push(s[i]);
        assert(!next.contains('\r') && !next.contains('\n')) by {
            if next.contains('\r') || next.contains('\n') {
                let k = choose|k: int| 0 <= k < next.len() && (next[k] == '\r' || next[k] == '\n');
                if k < cur.len() {
                    assert(cur[k] == next[k]);
                }
            }
        }
        lemma_segments_are_lines(s, i + 1, next);
        assert(segments_from(s, i, cur) == segments_from(s, i + 1, next));
    }
}

proof fn lemma_segments_without_breaks(s: Seq<char>, i: int, cur: Seq<char>)
    requires
        0 <= i <= s.len(),
        !s.contains('\r'),
        !s.contains('\n'),
    ensures
        segments_from(s, i, cur) == (if trim(cur + s.subrange(i, s.len() as int)).len() > 0 {
            seq![trim(cur + s.subrange(i, s.len() as int))]
        } else {
            Seq::<Seq<char>>::empty()
        }),
    decreases s.len() - i,
{
    if i < s.len() {
        assert(s[i] != '\r' && s[i] != '\n');
        lemma_segments_without_breaks(s, i + 1, cur.push(s[i]));
        assert(cur.push(s[i]) + s.subrange(i + 1, s.len() as int) =~= cur + s.subrange(i, s.len() as int));
    } else {
        assert(cur + s.subrange(i, s.len() as int) =~= cur);
    }
}

proof fn lemma_segments_shift(p: Seq<char>, b: Seq<char>, j: int, cur: Seq<char>)
    requires
        0 <= j,
    ensures
        segments_from(p + b, p.len() + j, cur) == segments_from(b, j, cur),
    decreases b.len() - j,
{
    if j < b.len() {
        assert((p + b)[p.len() + j] == b[j]);
        lemma_segments_shift(p, b, j + 1, seq![]);
        lemma_segments_shift(p, b, j + 1, cur.push(b[j]));
    }
}

proof fn lemma_segments_split(a: Seq<char>, sep: char, b: Seq<char>, i: int, cur: Seq<char>)
    requires
        sep == '\r' || sep == '\n',
        0 <= i <= a.len(),
    ensures
        segments_from(a + seq![sep] + b, i, cur) == segments_from(a, i, cur) + segments_from(b, 0, seq![]),
    decreases a.len() - i,
{
    let x = a + seq![sep] + b;
    let head: Seq<Seq<char>> = if trim(cur).len() > 0 { seq![trim(cur)] } else { seq![] };
    if i == a.len() {
        assert(x[i] == sep);
        assert(x =~= (a + seq![sep]) + b);
        lemma_segments_shift(a + seq![sep], b, 0, seq![]);
        assert(segments_from(x, i, cur) == head + segments_from(x, i + 1, seq![]));
        assert(segments_from(a, i, cur) == head);
    } else {
        assert(x[i] == a[i]);
        if a[i] == '\r' || a[i] == '\n' {
            lemma_segments_split(a, sep, b, i + 1, seq![]);
            assert(segments_from(x, i, cur) == head + segments_from(x, i + 1, seq![]));
            assert(segments_from(a, i, cur) == head + segments_from(a, i + 1, seq![]));
            assert(head + (segments_from(a, i + 1, seq![]) + segments_from(b, 0, seq![])) =~= (head + segments_from(
                a,
                i + 1,
                seq![],
            )) + segments_from(b, 0, seq![]));
        } else {
            lemma_segments_split(a, sep, b, i + 1, cur.push(a[i]));
        }
    }
}

/// A line break splits the observed lines: the lines of `a`, a CR or LF, and `b` are the
/// lines of `a` followed by the lines of `b`.
pub proof fn law_line_break_splits_lines(a: Seq<char>, sep: char, b: Seq<char>)
    requires
        sep == '\r' || sep == '\n',
    ensures
        line_segments(a + seq![sep] + b) == line_segments(a) + line_segments(b),
{
    lemma_segments_split(a, sep, b, 0, seq![]);
}

/// Lines are split at CR as well as LF: every observed line is non-empty, trimmed and holds
/// neither CR nor LF, and a text with no line break is one line, its trimmed self (none when
/// it is blank).
pub proof fn law_lines_hold_no_line_break(s: Seq<char>)
    ensures
        forall|k: int| 0 <= k < line_segments(s).len() ==> is_line(#[trigger] line_segments(s)[k]),
        !s.contains('\r') && !s.contains('\n') ==> line_segments(s) == (if trim(s).len() > 0 {
            seq![trim(s)]
        } else {
            Seq::<Seq<char>>::empty()
        }),
{
    lemma_segments_are_lines(s, 0, seq![]);
    if !s.contains('\r') && !s.contains('\n') {
        lemma_segments_without_breaks(s, 0, seq![]);
        assert(Seq::<char>::empty() + s.subrange(0, s.len() as int) =~= s);
    }
}

/// `text.split(['\r', '\n']).map(str::trim).filter(|s| !s.is_empty())`.
pub open spec fn line_segments(s: Seq<char>) -> Seq<Seq<char>> {
    segments_from(s, 0, seq![])
}

pub open spec fn string_view(s: String) -> Seq<char> {
    s@
}

fn push_segment(out: &mut Vec<String>, cur: &Vec<char>)
    ensures
        final(out)@.map_values(|s: String| string_view(s)) == old(out)@.map_values(|s: String| string_view(s))
            + (if trim(cur@).len() > 0 { seq![trim(cur@)] } else { Seq::<Seq<char>>::empty() }),
{
    let t = trim_chars(cur);
    let ghost before = out@.map_values(|s: String| string_view(s));
    if t.len() > 0 {
        out.push(string_of(&t));
        assert(out@.map_values(|s: String| string_view(s)) =~= before.push(trim(cur@)));
        assert(before.push(trim(cur@)) =~= before + seq![trim(cur@)]);
    } else {
        assert(before + Seq::<Seq<char>>::empty() =~= before);
    }
}

/// The lines of a visible console text that are offered for observation.
pub fn observed_lines(visible: &[char]) -> (r: Vec<String>)
    ensures
        r@.map_values(|s: String| string_view(s)) == line_segments(visible@),
{
    let mut out: Vec<String> = Vec::new();
    let mut cur: Vec<char> = Vec::new();
    let mut i: usize = 0;
    while i < visible.len()
        invariant
            i <= visible.len(),
            line_segments(visible@) == out@.map_values(|s: String| string_view(s)) + segments_from(
                visible@,
                i as int,
                cur@,
            ),
        decreases visible.len() - i,
    {
        let c = visible[i];
        if c == '\r' || c == '\n' {
            let ghost before = out@.map_values(|s: String| string_view(s));
            push_segment(&mut out, &cur);
            cur = Vec::new();
            assert(cur@ =~= Seq::<char>::empty());
        } else {
            cur.push(c);
        }
        i += 1;
    }
    let ghost before = out@.map_values(|s: String| string_view(s));
    push_segment(&mut out, &cur);
    out
}

// ---------------------------------------------------------------------------
// The write call.
// ---------------------------------------------------------------------------

/// One `WriteConsoleW` call as UTF-16 units, with the conditions the hook detected.
#[derive(Clone, Debug, PartialEq, Eq)]
pub struct ConsoleWriteCall {
    units: Vec<u16>,
    excessive_length: bool,
    reentry_detected: bool,
}

impl ConsoleWriteCall {
    pub closed spec fn spec_units(&self) -> Seq<u16> {
        self.units@
    }

    pub closed spec fn spec_excessive_length(&self) -> bool {
        self.excessive_length
    }

    pub closed spec fn spec_reentry_detected(&self) -> bool {
        self.reentry_detected
    }

    pub fn utf16(text: &str) -> (r: Self)
        ensures
            r.spec_units() == utf16(text@),
            !r.spec_excessive_length(),
            !r.spec_reentry_detected(),
    {
        let chars = chars_of(text);
        ConsoleWriteCall { units: encode_utf16(&chars), excessive_length: false, reentry_detected: false }
    }

    /// A call holding one unpaired surrogate.
    pub fn invalid_utf16() -> (r: Self)
        ensures
            r.spec_units() == seq![0xd800u16],
            !r.spec_excessive_length(),
            !r.spec_reentry_detected(),
    {
        let mut units: Vec<u16> = Vec::new();
        units.push(0xd800);
        ConsoleWriteCall { units, excessive_length: false, reentry_detected: false }
    }

    pub fn with_excessive_length(self) -> (r: Self)
        ensures
            r.spec_units() == self.spec_units(),
            r.spec_excessive_length(),
            r.spec_reentry_detected() == self.spec_reentry_detected(),
    {
        ConsoleWriteCall { excessive_length: true, ..self }
    }

    pub fn with_reentry_detected(self) -> (r: Self)
        ensures
            r.spec_units() == self.spec_units(),
            r.spec_excessive_length() == self.spec_excessive_length(),
            r.spec_reentry_detected(),
    {
        ConsoleWriteCall { reentry_detected: true, ..self }
    }
}

/// The write as it goes to the console: always the original units.
#[derive(Clone, Debug, PartialEq, Eq)]
pub struct PreparedConsoleWrite {
    units: Vec<u16>,
    text: Option<String>,
}

pub open spec fn opt_string_view(o: Option<String>) -> Option<Seq<char>> {
    match o {
        Some(s) => Some(s@),
        None => None,
    }
}

impl PreparedConsoleWrite {
    pub closed spec fn spec_units(&self) -> Seq<u16> {
        self.units@
    }

    pub closed spec fn spec_text(&self) -> Option<Seq<char>> {
        opt_string_view(self.text)
    }

    pub fn units(&self) -> (r: &[u16])
        ensures
            r@ == self.spec_units(),
    {
        self.units.as_slice()
    }

    pub fn text(&self) -> (r: Option<&str>)
        ensures
            match r {
                Some(s) => self.spec_text() == Some(s@),
                None => self.spec_text() is None,
            },
    {
        match &self.text {
            Some(s) => Some(s.as_str()),
            None => None,
        }
    }
}

/// Observe-only console adapter.
#[derive(Clone, Copy, Debug, PartialEq, Eq)]
pub struct ConsoleWriteObserver {
    text_observe: bool,
}

/// The lines the observer offers for a write: none when observation is off, the call
/// is flagged or too long, or the units are not valid UTF-16.
pub open spec fn console_observations(
    text_observe: bool,
    excessive: bool,
    reentry: bool,
    units: Seq<u16>,
) -> Seq<Seq<char>> {
    if !text_observe || excessive || reentry || units.len() > MAX_TEXT_UNITS {
        seq![]
    } else {
        match utf16_decode(units) {
            Some(text) => line_segments(visible_text(text)),
            None => seq![],
        }
    }
}

impl ConsoleWriteObserver {
    pub closed spec fn spec_text_observe(&self) -> bool {
        self.text_observe
    }

    pub fn new() -> (r: Self)
        ensures
            r.spec_text_observe(),
    {
        ConsoleWriteObserver { text_observe: true }
    }

    /// The observer for the features that activation granted.
    pub fn with_text_observe(text_observe: bool) -> (r: Self)
        ensures
            r.spec_text_observe() == text_observe,
    {
        ConsoleWriteObserver { text_observe }
    }

    /// Splits a write into the unchanged call and the lines to observe, in order.
    pub fn prepare(&self, call: ConsoleWriteCall) -> (r: (PreparedConsoleWrite, Vec<String>))
        ensures
            r.0.spec_units() == call.spec_units(),
            r.0.spec_text() == utf16_decode(call.spec_units()),
            r.1@.map_values(|s: String| string_view(s)) == console_observations(
                self.spec_text_observe(),
                call.spec_excessive_length(),
                call.spec_reentry_detected(),
                call.spec_units(),
            ),
    {
        let decoded = decode_utf16(&call.units);
        let text = match &decoded {
            Some(v) => Some(string_of(v)),
            None => None,
        };
        let skip = !self.text_observe || call.excessive_length || call.reentry_detected
            || call.units.len() > MAX_TEXT_UNITS;
        let lines = if skip {
            let v: Vec<String> = Vec::new();
            assert(v@.map_values(|s: String| string_view(s)) =~= Seq::<Seq<char>>::empty());
            v
        } else {
            match &decoded {
                Some(chars) => {
                    let source = string_of(chars);
                    let visible = visible_console_text(source.as_str());
                    let vchars = chars_of(visible.as_str());
                    observed_lines(&vchars)
                },
                None => {
                    let v: Vec<String> = Vec::new();
                    assert(v@.map_values(|s: String| string_view(s)) =~= Seq::<Seq<char>>::empty());
                    v
                },
            }
        };
        (PreparedConsoleWrite { units: call.units, text }, lines)
    }
}

impl Default for ConsoleWriteObserver {
    fn default() -> (r: Self)
        ensures
            r.spec_text_observe(),
    {
        Self::new()
    }
}

} // verus!
