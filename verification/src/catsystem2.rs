//! CatSystem2 retained text: leading colour commands, the human text, and the
//! engine's trailing terminator are kept apart, so that only the text is translated.
use vstd::prelude::*;
use crate::chars::{append_all, copy_range, seq_eq_bytes, str_bytes, utf8_chars, utf8_str};
use crate::unicode::{chars_of, decode_utf16, string_of, utf16_decode};

verus! {

/// The engine's text terminator.
pub open spec fn marker() -> Seq<u8> {
    seq![255u8, 255u8]
}

pub open spec fn is_hex_digit(b: u8) -> bool {
    (0x30 <= b <= 0x39) || (0x41 <= b <= 0x46) || (0x61 <= b <= 0x66)
}

/// `\cd0x` (five bytes) or `\c0x` (four bytes) at `p`: the length of the opener.
pub open spec fn color_opener(s: Seq<u8>, p: int) -> int {
    if p + 5 <= s.len() && s[p] == 0x5cu8 && s[p + 1] == 0x63u8 && s[p + 2] == 0x64u8
        && s[p + 3] == 0x30u8 && s[p + 4] == 0x78u8 {
        5
    } else if p + 4 <= s.len() && s[p] == 0x5cu8 && s[p + 1] == 0x63u8 && s[p + 2] == 0x30u8
        && s[p + 3] == 0x78u8 {
        4
    } else {
        0
    }
}

/// The length of a complete colour command at `p` (opener, eight hex digits, `;`), or 0.
pub open spec fn color_command(s: Seq<u8>, p: int) -> int {
    let d = color_opener(s, p);
    if d > 0 && p + d + 9 <= s.len()
        && (forall|k: int| p + d <= k < p + d + 8 ==> is_hex_digit(#[trigger] s[k]))
        && s[p + d + 8] == 0x3bu8 {
        d + 9
    } else {
        0
    }
}

/// Where the run of colour commands that starts at `p` ends.
pub open spec fn commands_end(s: Seq<u8>, p: int) -> int
    decreases s.len() - p,
{
    if 0 <= p <= s.len() && color_command(s, p) > 0 {
        commands_end(s, p + color_command(s, p))
    } else {
        p
    }
}

/// Where the trailing run of 255 bytes after `start` begins, scanning back from `e`.
pub open spec fn trailer_start(s: Seq<u8>, start: int, e: int) -> int
    decreases e - start,
{
    if e > start && s[e - 1] == 255u8 {
        trailer_start(s, start, e - 1)
    } else {
        e
    }
}

/// The boundaries of the colour prefix and of the trailing terminator bytes.
pub open spec fn classic_split(s: Seq<u8>) -> (int, int) {
    let start = commands_end(s, 0);
    (start, trailer_start(s, start, s.len() as int))
}

proof fn lemma_commands_end_bounds(s: Seq<u8>, p: int)
    requires
        0 <= p <= s.len(),
    ensures
        p <= commands_end(s, p) <= s.len(),
    decreases s.len() - p,
{
    if color_command(s, p) > 0 {
        lemma_commands_end_bounds(s, p + color_command(s, p));
    }
}

proof fn lemma_trailer_start_bounds(s: Seq<u8>, start: int, e: int)
    requires
        0 <= start <= e <= s.len(),
    ensures
        start <= trailer_start(s, start, e) <= e,
        forall|k: int| trailer_start(s, start, e) <= k < e ==> s[k] == 255u8,
    decreases e - start,
{
    if e > start && s[e - 1] == 255u8 {
        lemma_trailer_start_bounds(s, start, e - 1);
    }
}

fn is_hex_digit_byte(b: u8) -> (r: bool)
    ensures
        r == is_hex_digit(b),
{
    (0x30 <= b && b <= 0x39) || (0x41 <= b && b <= 0x46) || (0x61 <= b && b <= 0x66)
}

fn color_command_at(s: &[u8], p: usize) -> (r: usize)
    requires
        p <= s.len(),
    ensures
        r == color_command(s@, p as int),
{
    let n = s.len();
    let d: usize = if n - p >= 5 && s[p] == 0x5c && s[p + 1] == 0x63 && s[p + 2] == 0x64 && s[p + 3] == 0x30
        && s[p + 4] == 0x78 {
        5
    } else if n - p >= 4 && s[p] == 0x5c && s[p + 1] == 0x63 && s[p + 2] == 0x30 && s[p + 3] == 0x78 {
        4
    } else {
        0
    };
    if d == 0 || n - p < d + 9 {
        return 0;
    }
    let mut k: usize = p + d;
    while k < p + d + 8
        invariant
            p + d <= k <= p + d + 8,
            p + d + 9 <= n,
            n == s.len(),
            d > 0,
            d == color_opener(s@, p as int),
            forall|j: int| p + d <= j < k ==> is_hex_digit(#[trigger] s@[j]),
        decreases p + d + 8 - k,
    {
        if !is_hex_digit_byte(s[k]) {
            assert(!is_hex_digit(s@[k as int]));
            return 0;
        }
        k += 1;
    }
    if s[p + d + 8] != 0x3b {
        return 0;
    }
    d + 9
}

/// The end of the colour prefix and the start of the trailing terminator bytes.
pub fn classic_bounds(bytes: &[u8]) -> (r: (usize, usize))
    ensures
        r.0 == classic_split(bytes@).0,
        r.1 == classic_split(bytes@).1,
        r.0 <= r.1 <= bytes.len(),
{
    let mut start: usize = 0;
    loop
        invariant
            start <= bytes.len(),
            commands_end(bytes@, start as int) == commands_end(bytes@, 0),
        ensures
            start <= bytes.len(),
            commands_end(bytes@, start as int) == commands_end(bytes@, 0),
            color_command(bytes@, start as int) == 0,
        decreases bytes.len() - start,
    {
        let n = color_command_at(bytes, start);
        if n == 0 {
            break;
        }
        proof {
            lemma_commands_end_bounds(bytes@, start + n);
        }
        start = start + n;
    }
    let mut end: usize = bytes.len();
    while end > start && bytes[end - 1] == 255
        invariant
            start <= end <= bytes.len(),
            trailer_start(bytes@, start as int, end as int) == trailer_start(bytes@, start as int, bytes.len() as int),
        decreases end,
    {
        end -= 1;
    }
    (start, end)
}

/// The replayable colour prefix, the human text, and the trailing terminator bytes.
/// Only leading colour commands count as prefix; an unknown or embedded command stays text.
pub fn classic_parts(bytes: &[u8]) -> (r: (Vec<u8>, Vec<u8>, Vec<u8>))
    ensures
        r.0@ == bytes@.subrange(0, classic_split(bytes@).0),
        r.1@ == bytes@.subrange(classic_split(bytes@).0, classic_split(bytes@).1),
        r.2@ == bytes@.subrange(classic_split(bytes@).1, bytes@.len() as int),
{
    let (start, end) = classic_bounds(bytes);
    (copy_range(bytes, 0, start), copy_range(bytes, start, end), copy_range(bytes, end, bytes.len()))
}

/// Where the body ends once every whole terminator is stripped from the end of `s[..e]`.
pub open spec fn body_end(s: Seq<u8>, e: int) -> int
    decreases e,
{
    if 2 <= e <= s.len() && s[e - 2] == 255u8 && s[e - 1] == 255u8 {
        body_end(s, e - 2)
    } else {
        e
    }
}

proof fn lemma_body_end_bounds(s: Seq<u8>, e: int)
    requires
        0 <= e <= s.len(),
    ensures
        0 <= body_end(s, e) <= e,
    decreases e,
{
    if 2 <= e && s[e - 2] == 255u8 && s[e - 1] == 255u8 {
        lemma_body_end_bounds(s, e - 2);
    }
}

/// The UTF-8 text before the terminators, and the terminators; `None` when that text is not UTF-8.
pub open spec fn decoded_text(s: Seq<u8>) -> Option<(Seq<char>, Seq<u8>)> {
    let e = body_end(s, s.len() as int);
    match utf8_chars(s.subrange(0, e)) {
        Some(t) => Some((t, s.subrange(e, s.len() as int))),
        None => None,
    }
}

pub fn decode(bytes: &[u8]) -> (r: Option<(String, Vec<u8>)>)
    ensures
        match r {
            Some((t, m)) => decoded_text(bytes@) == Some((t@, m@)),
            None => decoded_text(bytes@) is None,
        },
{
    let mut e: usize = bytes.len();
    while e >= 2 && bytes[e - 2] == 255 && bytes[e - 1] == 255
        invariant
            e <= bytes.len(),
            body_end(bytes@, e as int) == body_end(bytes@, bytes.len() as int),
        decreases e,
    {
        e -= 2;
    }
    let body = copy_range(bytes, 0, e);
    match utf8_str(body.as_slice()) {
        Some(s) => {
            let chars = chars_of(s);
            Some((string_of(&chars), copy_range(bytes, e, bytes.len())))
        },
        None => None,
    }
}

/// The longest text, in bytes, the adapter reads from or writes to an object.
pub const LIMIT: usize = 8192;
/// The budget of tracked objects, each holding an original and a translated text.
pub const MAX_OWNERS: usize = 4 * 1024 * 1024 / (2 * LIMIT);

/// Whether bytes are plain dialogue: bounded, non-empty, without control bytes (but tab
/// and line feed) and without the engine's command characters `\`, `[` and `]`.
pub open spec fn is_plain(b: Seq<u8>) -> bool {
    b.len() > 0 && b.len() <= LIMIT && forall|k: int| 0 <= k < b.len() ==> !is_command_byte(#[trigger] b[k])
}

pub open spec fn is_command_byte(x: u8) -> bool {
    x <= 8 || (11 <= x <= 31) || x == 127 || x == 0x5c || x == 0x5b || x == 0x5d
}

pub fn plain(bytes: &[u8]) -> (r: bool)
    ensures
        r == is_plain(bytes@),
{
    if bytes.len() == 0 || bytes.len() > LIMIT {
        return false;
    }
    let mut i: usize = 0;
    while i < bytes.len()
        invariant
            i <= bytes.len(),
            forall|k: int| 0 <= k < i ==> !is_command_byte(#[trigger] bytes@[k]),
        decreases bytes.len() - i,
    {
        let x = bytes[i];
        if x <= 8 || (11 <= x && x <= 31) || x == 127 || x == 0x5c || x == 0x5b || x == 0x5d {
            assert(is_command_byte(bytes@[i as int]));
            return false;
        }
        i += 1;
    }
    true
}

/// The two text object profiles.
#[derive(Clone, Copy, Debug, PartialEq, Eq, Structural)]
pub enum Profile {
    Utf8,
    Classic,
}

/// A text the engine has finished: it ends with its terminator (one byte in the classic profile).
pub open spec fn is_completed(profile: Profile, b: Seq<u8>) -> bool {
    match profile {
        Profile::Classic => b.len() >= 1 && b.last() == 255u8,
        Profile::Utf8 => b.len() >= 2 && b[b.len() - 2] == 255u8 && b.last() == 255u8,
    }
}

pub fn completed(profile: Profile, bytes: &[u8]) -> (r: bool)
    ensures
        r == is_completed(profile, bytes@),
{
    let n = bytes.len();
    match profile {
        Profile::Classic => n >= 1 && bytes[n - 1] == 255,
        Profile::Utf8 => n >= 2 && bytes[n - 2] == 255 && bytes[n - 1] == 255,
    }
}

/// Whether a host answer is used: it must not be older than the last one seen (a newer one
/// moves the generation on), replacement must be active and decided, the answer must fit,
/// and the source must be plain.
pub open spec fn answer_usable(generation: u64, result_generation: u64, replace_active: bool, status_ok: bool,
    decided: bool, text_len: u32, output_len: nat, source_text: Seq<u8>) -> bool {
    result_generation >= generation && replace_active && status_ok && decided && text_len <= output_len
        && is_plain(source_text)
}

pub fn accept_answer(generation: &mut u64, result_generation: u64, replace_active: bool, status_ok: bool,
    decided: bool, text_len: u32, output_len: usize, source_text: &[u8]) -> (r: bool)
    ensures
        r == answer_usable(*old(generation), result_generation, replace_active, status_ok, decided, text_len,
            output_len as nat, source_text@),
        *final(generation) == (if result_generation < *old(generation) { *old(generation) } else { result_generation }),
{
    if result_generation < *generation {
        return false;
    }
    *generation = result_generation;
    replace_active && status_ok && decided && text_len as usize <= output_len && plain(source_text)
}

/// The host's translated text, when it is well-formed and plain.
pub open spec fn answer_text(output: Seq<u16>, text_len: u32) -> Option<Seq<char>> {
    if text_len > output.len() {
        None
    } else {
        match utf16_decode(output.take(text_len as int)) {
            Some(t) => if is_plain(vstd::utf8::encode_utf8(t)) { Some(t) } else { None },
            None => None,
        }
    }
}

pub fn translated_text(output: &[u16], text_len: u32) -> (r: Option<String>)
    ensures
        match r {
            Some(t) => answer_text(output@, text_len) == Some(t@),
            None => answer_text(output@, text_len) is None,
        },
{
    if text_len as usize > output.len() {
        return None;
    }
    let units = copy_range(output, 0, text_len as usize);
    assert(units@ =~= output@.take(text_len as int));
    match decode_utf16(&units) {
        Some(chars) => {
            let s = string_of(&chars);
            let b = str_bytes(s.as_str());
            if plain(&b) { Some(s) } else { None }
        },
        None => None,
    }
}

/// The bytes to set: the prefix, the new body and the terminator, when a body was made
/// and the whole fits; otherwise the source unchanged.
pub open spec fn reassembled(source: Seq<u8>, prefix: Seq<u8>, body: Option<Seq<u8>>, marker: Seq<u8>) -> Seq<u8> {
    match body {
        Some(b) => if prefix.len() + b.len() + marker.len() <= LIMIT { prefix + b + marker } else { source },
        None => source,
    }
}

pub fn reassemble(source: &[u8], prefix: &[u8], body: Option<Vec<u8>>, marker: &[u8]) -> (r: Vec<u8>)
    ensures
        r@ == reassembled(source@, prefix@, match body { Some(b) => Some(b@), None => None }, marker@),
{
    match body {
        Some(b) => {
            if prefix.len() <= LIMIT && b.len() <= LIMIT && marker.len() <= LIMIT
                && prefix.len() + b.len() + marker.len() <= LIMIT {
                let mut out = copy_range(prefix, 0, prefix.len());
                append_all(&mut out, &b);
                append_all(&mut out, marker);
                assert(prefix@.subrange(0, prefix@.len() as int) =~= prefix@);
                out
            } else {
                copy_range(source, 0, source.len())
            }
        },
        None => {
            let out = copy_range(source, 0, source.len());
            assert(out@ =~= source@);
            out
        },
    }
}

/// What the UTF-8 profile sets for `source` given the host's answer about its text.
pub open spec fn utf8_decision(source: Seq<u8>, generation: u64, result_generation: u64, replace_active: bool,
    status_ok: bool, decided: bool, text_len: u32, output: Seq<u16>) -> Seq<u8> {
    match decoded_text(source) {
        None => source,
        Some((text, marker)) => if !answer_usable(generation, result_generation, replace_active, status_ok, decided,
            text_len, output.len(), vstd::utf8::encode_utf8(text)) {
            source
        } else {
            reassembled(source, Seq::empty(), match answer_text(output, text_len) {
                Some(t) => Some(vstd::utf8::encode_utf8(t)),
                None => None,
            }, marker)
        },
    }
}

/// The UTF-8 profile's decision; `generation` is the newest host generation seen, which a
/// decodable source's answer moves on.
pub fn decide_utf8(source: &[u8], generation: &mut u64, result_generation: u64, replace_active: bool, status_ok: bool,
    decided: bool, text_len: u32, output: &[u16]) -> (r: Vec<u8>)
    ensures
        r@ == utf8_decision(source@, *old(generation), result_generation, replace_active, status_ok, decided, text_len,
            output@),
        decoded_text(source@) is None ==> *final(generation) == *old(generation),
{
    let (text, marker) = match decode(source) {
        Some(p) => p,
        None => return copy_range(source, 0, source.len()),
    };
    let text_bytes = str_bytes(text.as_str());
    if !accept_answer(generation, result_generation, replace_active, status_ok, decided, text_len, output.len(), &text_bytes) {
        let out = copy_range(source, 0, source.len());
        assert(out@ =~= source@);
        return out;
    }
    let body = match translated_text(output, text_len) {
        Some(t) => Some(str_bytes(t.as_str())),
        None => None,
    };
    let empty: Vec<u8> = Vec::new();
    reassemble(source, &empty, body, &marker)
}

/// One tracked text object: the thread that owns it, its original text, the text last
/// set or seen, the refresh epoch it was last decided in, and whether it was displayed.
#[derive(Clone, Debug, PartialEq, Eq)]
pub struct Owner {
    pub thread: u32,
    pub source: Vec<u8>,
    pub last: Vec<u8>,
    pub epoch: u64,
    pub presented: bool,
}

/// What a tick does with an object before asking the host.
#[derive(Clone, Debug, PartialEq, Eq)]
pub enum Admission {
    /// Another thread owns the object: leave its record alone.
    Skip,
    /// Stop tracking the object (empty text, or no budget left).
    Drop,
    /// Track the object with this record.
    Track(Owner),
}

/// The record for an object: the previous one while the object still shows what was last
/// set or seen, else a fresh one whose original is what it shows now.
pub open spec fn admitted_owner(previous: Option<Owner>, actual: Seq<u8>, thread: u32, presented: bool) -> (Seq<u8>, Seq<u8>, u64, bool) {
    match previous {
        Some(o) => if o.last@ == actual { (o.source@, o.last@, o.epoch, o.presented || presented) }
            else { (actual, actual, 0, presented) },
        None => (actual, actual, 0, presented),
    }
}

pub fn admission(previous: Option<Owner>, actual: &[u8], thread: u32, presented: bool, other_owners: usize) -> (r: Admission)
    ensures
        (previous matches Some(o) && o.thread != thread) ==> r == Admission::Skip,
        !(previous matches Some(o) && o.thread != thread) ==> {
            let (source, last, epoch, shown) = admitted_owner(previous, actual@, thread, presented);
            match r {
                Admission::Track(o) => source.len() > 0 && other_owners < MAX_OWNERS && o.thread == thread
                    && o.source@ == source && o.last@ == last && o.epoch == epoch && o.presented == shown,
                Admission::Drop => source.len() == 0 || other_owners >= MAX_OWNERS,
                Admission::Skip => false,
            }
        },
{
    let owner = match previous {
        Some(o) => {
            if o.thread != thread {
                return Admission::Skip;
            }
            if seq_eq_bytes(o.last.as_slice(), actual) {
                Owner { presented: o.presented || presented, ..o }
            } else {
                Owner {
                    thread,
                    source: copy_range(actual, 0, actual.len()),
                    last: copy_range(actual, 0, actual.len()),
                    epoch: 0,
                    presented,
                }
            }
        },
        None => Owner {
            thread,
            source: copy_range(actual, 0, actual.len()),
            last: copy_range(actual, 0, actual.len()),
            epoch: 0,
            presented,
        },
    };
    assert(actual@.subrange(0, actual@.len() as int) =~= actual@);
    if owner.source.len() == 0 || other_owners >= MAX_OWNERS {
        return Admission::Drop;
    }
    Admission::Track(owner)
}

/// Whether a tracked object is decided again: after a refresh, or once its check is due.
pub fn needs_decision(owner: &Owner, epoch: u64, check_due: bool) -> (r: bool)
    ensures
        r == (owner.epoch != epoch || check_due),
{
    owner.epoch != epoch || check_due
}

/// Whether the decided text `next` is set: when it differs from what was last set, or after
/// a refresh when it differs from the original and the object is displayed or finished.
pub open spec fn sets_text(o: Owner, next: Seq<u8>, epoch: u64, next_completed: bool) -> bool {
    next != o.last@ || (o.epoch != epoch && next != o.source@ && (o.presented || next_completed))
}

pub fn should_set(owner: &Owner, next: &[u8], epoch: u64, next_completed: bool) -> (r: bool)
    ensures
        r == sets_text(*owner, next@, epoch, next_completed),
{
    !seq_eq_bytes(next, owner.last.as_slice())
        || (owner.epoch != epoch && !seq_eq_bytes(next, owner.source.as_slice()) && (owner.presented || next_completed))
}

/// Restoring puts the original back only over the text the adapter set last.
pub fn restore_text(owner: &Owner, current: &[u8]) -> (r: Option<Vec<u8>>)
    ensures
        current@ == owner.last@ ==> (r matches Some(s) && s@ == owner.source@),
        current@ != owner.last@ ==> r is None,
{
    if seq_eq_bytes(current, owner.last.as_slice()) {
        let s = copy_range(owner.source.as_slice(), 0, owner.source.len());
        assert(s@ =~= owner.source@);
        Some(s)
    } else {
        None
    }
}

/// An object that still shows the adapter's last text keeps its original across ticks,
/// so restoring later puts back the host's text and not a translation.
pub proof fn law_original_survives_our_own_writes(o: Owner, thread: u32, presented: bool)
    requires
        o.thread == thread,
    ensures
        admitted_owner(Some(o), o.last@, thread, presented).0 == o.source@,
{
}

/// Anything else the object shows becomes the new original.
pub proof fn law_host_text_becomes_the_original(o: Owner, actual: Seq<u8>, thread: u32, presented: bool)
    requires
        actual != o.last@,
    ensures
        admitted_owner(Some(o), actual, thread, presented).0 == actual,
        admitted_owner(Some(o), actual, thread, presented).1 == actual,
{
}

} // verus!
