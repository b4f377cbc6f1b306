//! Qt translation policy: the verified Qt profiles and the placeholder contract
//! that a translated `QCoreApplication::translate` result must keep.
use vstd::prelude::*;
use crate::chars::{contains_char, seq_eq_bytes, utf8_chars, utf8_str};
use crate::unicode::{
    chars_of, decode_utf16, encode_utf16, string_of, trim, trim_chars, utf16, utf16_decode, utf16_len, utf16_len_exceeds,
};

verus! {

broadcast use {vstd::multiset::group_multiset_axioms, vstd::seq_lib::group_to_multiset_ensures};

pub open spec fn is_ascii_digit(c: u8) -> bool {
    0x30 <= c <= 0x39
}

/// The Qt placeholders (`%1`..`%99`, `%L1`, `%n`, `%Ln`) of a UTF-8 text, scanning from `i`;
/// `%%` is a literal percent sign.
pub open spec fn placeholders_from(b: Seq<u8>, i: int) -> Seq<Seq<u8>>
    decreases b.len() - i,
{
    if i < 0 || i >= b.len() {
        seq![]
    } else if b[i] != 0x25u8 || i + 1 >= b.len() {
        placeholders_from(b, i + 1)
    } else if b[i + 1] == 0x25u8 {
        placeholders_from(b, i + 2)
    } else {
        let j = if b[i + 1] == 0x4Cu8 { i + 2 } else { i + 1 };
        if j < b.len() && b[j] == 0x6Eu8 {
            seq![b.subrange(i, j + 1)] + placeholders_from(b, j + 1)
        } else if j < b.len() && 0x31 <= b[j] <= 0x39 {
            let k = if j + 1 < b.len() && is_ascii_digit(b[j + 1]) { j + 2 } else { j + 1 };
            seq![b.subrange(i, k)] + placeholders_from(b, k)
        } else {
            placeholders_from(b, j)
        }
    }
}

pub open spec fn placeholders(text: Seq<char>) -> Seq<Seq<u8>> {
    placeholders_from(vstd::utf8::encode_utf8(text), 0)
}

/// A translation keeps exactly the source's placeholders, in any order.
pub open spec fn placeholders_match(source: Seq<char>, replacement: Seq<char>) -> bool {
    placeholders(source).to_multiset() == placeholders(replacement).to_multiset()
}

/// No `%` in `b[i..j]`: the placeholders from `i` are those from `j`.
proof fn lemma_placeholders_skip(b: Seq<u8>, i: int, j: int)
    requires
        0 <= i <= j <= b.len(),
        forall|m: int| i <= m < j ==> b[m] != 0x25u8,
    ensures
        placeholders_from(b, i) == placeholders_from(b, j),
    decreases j - i,
{
    if i < j {
        lemma_placeholders_skip(b, i + 1, j);
    }
}

/// The first `%` of a text that starts a placeholder is counted, whatever surrounds it:
/// `%n`, `%Ln` and `%` with one or two digits (the first not `0`) give the first placeholder.
pub proof fn law_first_placeholder_is_counted(b: Seq<u8>, i: int)
    requires
        0 <= i,
        i + 1 < b.len(),
        b[i] == 0x25u8,
        forall|m: int| 0 <= m < i ==> b[m] != 0x25u8,
    ensures
        b[i + 1] == 0x6Eu8 ==> placeholders_from(b, 0).len() > 0 && placeholders_from(b, 0)[0] == seq![0x25u8, 0x6Eu8],
        b[i + 1] == 0x4Cu8 && i + 2 < b.len() && b[i + 2] == 0x6Eu8 ==> placeholders_from(b, 0).len() > 0
            && placeholders_from(b, 0)[0] == seq![0x25u8, 0x4Cu8, 0x6Eu8],
        0x31 <= b[i + 1] <= 0x39 && (i + 2 >= b.len() || !is_ascii_digit(b[i + 2])) ==> placeholders_from(b, 0).len()
            > 0 && placeholders_from(b, 0)[0] == seq![0x25u8, b[i + 1]],
        0x31 <= b[i + 1] <= 0x39 && i + 2 < b.len() && is_ascii_digit(b[i + 2]) ==> placeholders_from(b, 0).len() > 0
            && placeholders_from(b, 0)[0] == seq![0x25u8, b[i + 1], b[i + 2]],
        b[i + 1] == 0x25u8 ==> placeholders_from(b, 0) == placeholders_from(b, i + 2),
{
    lemma_placeholders_skip(b, 0, i);
    assert(b.subrange(i, i + 2) =~= seq![b[i], b[i + 1]]);
    if i + 2 < b.len() {
        assert(b.subrange(i, i + 3) =~= seq![b[i], b[i + 1], b[i + 2]]);
    }
}

/// A text that starts with `%n` (a plural count) has `%n` as its first placeholder, so a
/// translation that keeps its placeholders keeps `%n`.
pub proof fn law_plural_count_is_kept(rest: Seq<char>, replacement: Seq<char>)
    ensures
        placeholders(seq!['%', 'n'] + rest).len() > 0,
        placeholders(seq!['%', 'n'] + rest)[0] == seq![0x25u8, 0x6Eu8],
        placeholders_match(seq!['%', 'n'] + rest, replacement) ==> placeholders(replacement).contains(
            seq![0x25u8, 0x6Eu8],
        ),
{
    let head = seq!['%', 'n'];
    crate::qt_text_document::lemma_encode_concat(head, rest);
    assert(vstd::utf8::is_ascii_chars(head));
    vstd::utf8::is_ascii_chars_encode_utf8(head);
    let b = vstd::utf8::encode_utf8(head + rest);
    assert(b[0] == 0x25u8 && b[1] == 0x6Eu8);
    law_first_placeholder_is_counted(b, 0);
    let ps = placeholders(head + rest);
    if placeholders_match(head + rest, replacement) {
        assert(ps.to_multiset().count(ps[0]) > 0);
        assert(placeholders(replacement).to_multiset().count(ps[0]) > 0);
    }
}

/// A text without `%` has no placeholders.
pub proof fn law_no_percent_no_placeholders(t: Seq<char>)
    requires
        !t.contains('%'),
    ensures
        placeholders(t).len() == 0,
{
    let b = vstd::utf8::encode_utf8(t);
    crate::unicode::lemma_encode_avoids_ascii(t, '%', 0x25u8);
    lemma_placeholders_skip(b, 0, b.len() as int);
}

spec fn token_view(v: Vec<u8>) -> Seq<u8> {
    v@
}

spec fn tokens(v: Seq<Vec<u8>>) -> Seq<Seq<u8>> {
    v.map_values(|x: Vec<u8>| token_view(x))
}

fn scan_placeholders(b: &[u8]) -> (r: Vec<Vec<u8>>)
    ensures
        tokens(r@) == placeholders_from(b@, 0),
{
    let mut out: Vec<Vec<u8>> = Vec::new();
    let mut index: usize = 0;
    while index < b.len()
        invariant
            index <= b.len() + 1,
            placeholders_from(b@, 0) == tokens(out@) + placeholders_from(b@, index as int),
        decreases b.len() - index,
    {
        let ghost before = tokens(out@);
        if b[index] != 0x25u8 || index + 1 >= b.len() {
            index += 1;
            continue;
        }
        if b[index + 1] == 0x25u8 {
            index += 2;
            continue;
        }
        let start = index;
        index += 1;
        if index < b.len() && b[index] == 0x4Cu8 {
            index += 1;
        }
        if index < b.len() && b[index] == 0x6Eu8 {
            index += 1;
            let t = crate::chars::copy_range(b, start, index);
            out.push(t);
            assert(tokens(out@) =~= before.push(b@.subrange(start as int, index as int)));
            assert(tokens(out@) + placeholders_from(b@, index as int) =~= before + (seq![
                b@.subrange(start as int, index as int),
            ] + placeholders_from(b@, index as int)));
            continue;
        }
        if index < b.len() && 0x31u8 <= b[index] && b[index] <= 0x39u8 {
            index += 1;
            if index < b.len() && 0x30u8 <= b[index] && b[index] <= 0x39u8 {
                index += 1;
            }
            let t = crate::chars::copy_range(b, start, index);
            out.push(t);
            assert(tokens(out@) =~= before.push(b@.subrange(start as int, index as int)));
            assert(tokens(out@) + placeholders_from(b@, index as int) =~= before + (seq![
                b@.subrange(start as int, index as int),
            ] + placeholders_from(b@, index as int)));
            continue;
        }
    }
    assert(tokens(out@) + Seq::<Seq<u8>>::empty() =~= tokens(out@));
    out
}

fn same_tokens(a: &Vec<Vec<u8>>, b: Vec<Vec<u8>>) -> (r: bool)
    ensures
        r == (tokens(a@).to_multiset() == tokens(b@).to_multiset()),
{
    let ghost av = tokens(a@);
    let ghost bv = tokens(b@);
    let mut rest = b;
    let mut i: usize = 0;
    assert(av.take(0).to_multiset() =~= vstd::multiset::Multiset::empty());
    while i < a.len()
        invariant
            i <= a.len(),
            av == tokens(a@),
            bv == tokens(b@),
            bv.to_multiset() == av.take(i as int).to_multiset().add(tokens(rest@).to_multiset()),
        decreases a.len() - i,
    {
        let ghost r0 = tokens(rest@);
        let mut k: usize = 0;
        let mut found = false;
        while !found && k < rest.len()
            invariant
                k <= rest.len(),
                i < a.len(),
                av == tokens(a@),
                r0 == tokens(rest@),
                forall|m: int| 0 <= m < k ==> r0[m] != av[i as int],
                found ==> k < rest.len() && r0[k as int] == av[i as int],
            decreases rest.len() - k + (if found { 0int } else { 1int }),
        {
            if seq_eq_bytes(rest[k].as_slice(), a[i].as_slice()) {
                found = true;
            } else {
                k += 1;
            }
        }
        assert(av.take(i + 1) =~= av.take(i as int).push(av[i as int]));
        proof {
            vstd::seq_lib::lemma_multiset_commutative(av.take(i + 1), av.skip(i + 1));
        }
        assert(av =~= av.take(i + 1) + av.skip(i + 1));
        if !found {
            assert(!r0.contains(av[i as int]));
            assert(r0.to_multiset().count(av[i as int]) == 0);
            assert(bv.to_multiset().count(av[i as int]) < av.to_multiset().count(av[i as int]));
            assert(av.to_multiset() != bv.to_multiset());
            return false;
        }
        rest.remove(k);
        assert(tokens(rest@) =~= r0.remove(k as int));
        assert(bv.to_multiset() =~= av.take(i + 1).to_multiset().add(tokens(rest@).to_multiset()));
        i += 1;
    }
    assert(av.take(a.len() as int) =~= av);
    if rest.len() == 0 {
        assert(tokens(rest@) =~= Seq::<Seq<u8>>::empty());
        assert(bv.to_multiset() =~= av.to_multiset());
        true
    } else {
        assert(bv.to_multiset().len() > av.to_multiset().len());
        false
    }
}

/// True when `replacement` carries exactly the Qt placeholders of `source`, in any order.
pub fn qt_placeholders_compatible(source: &str, replacement: &str) -> (r: bool)
    ensures
        r == placeholders_match(source@, replacement@),
{
    let a = scan_placeholders(source.as_bytes());
    let b = scan_placeholders(replacement.as_bytes());
    same_tokens(&a, b)
}

/// Legacy (source-only) hosts may replace only non-plural calls (`n == -1`).
pub fn legacy_source_only_replacement_safe(n: i32) -> (r: bool)
    ensures
        r == (n == -1),
{
    n == -1
}

pub open spec fn is_qt6_translation_version(version: Seq<u8>) -> bool {
    version == seq![0x36u8, 0x2Eu8, 0x31u8, 0x30u8, 0x2Eu8, 0x33u8]
}

/// Which Qt builds a translation adapter accepts: production accepts Qt 6.10.3 only; the
/// research set also accepts the verified Qt 5 builds 5.15.13 and 5.15.18.
#[derive(Clone, Copy, Debug, PartialEq, Eq, Structural)]
pub enum QtProfileSet {
    Production,
    Research,
}

/// `5.15.13`.
pub open spec fn is_qt5_refresh_version(version: Seq<u8>) -> bool {
    version == seq![0x35u8, 0x2Eu8, 0x31u8, 0x35u8, 0x2Eu8, 0x31u8, 0x33u8]
}

/// `5.15.13` or `5.15.18`.
pub open spec fn is_qt5_translation_version(version: Seq<u8>) -> bool {
    is_qt5_refresh_version(version) || version == seq![0x35u8, 0x2Eu8, 0x31u8, 0x35u8, 0x2Eu8, 0x31u8, 0x38u8]
}

/// Whether the profile set accepts Qt `major` at `version` for translation.
pub fn supported_qt_profile_in(set: QtProfileSet, major: u8, version: &[u8]) -> (r: bool)
    ensures
        r == ((major == 6 && is_qt6_translation_version(version@)) || (set == QtProfileSet::Research && major == 5
            && is_qt5_translation_version(version@))),
{
    if major == 6 && seq_eq_bytes(version, &[0x36u8, 0x2Eu8, 0x31u8, 0x30u8, 0x2Eu8, 0x33u8]) {
        return true;
    }
    set == QtProfileSet::Research && major == 5 && (seq_eq_bytes(
        version,
        &[0x35u8, 0x2Eu8, 0x31u8, 0x35u8, 0x2Eu8, 0x31u8, 0x33u8],
    ) || seq_eq_bytes(version, &[0x35u8, 0x2Eu8, 0x31u8, 0x35u8, 0x2Eu8, 0x31u8, 0x38u8]))
}

/// Whether the profile set has a verified immediate language-change refresh for Qt `major`
/// at `version`: Qt 6.10.3, and in the research set Qt 5.15.13 (through `qMalloc`).
pub fn supports_immediate_refresh_in(set: QtProfileSet, major: u8, version: &[u8]) -> (r: bool)
    ensures
        r == ((major == 6 && is_qt6_translation_version(version@)) || (set == QtProfileSet::Research && major == 5
            && is_qt5_refresh_version(version@))),
{
    if major == 6 && seq_eq_bytes(version, &[0x36u8, 0x2Eu8, 0x31u8, 0x30u8, 0x2Eu8, 0x33u8]) {
        return true;
    }
    set == QtProfileSet::Research && major == 5 && seq_eq_bytes(
        version,
        &[0x35u8, 0x2Eu8, 0x31u8, 0x35u8, 0x2Eu8, 0x31u8, 0x33u8],
    )
}

/// The production translation profile: Qt 6.10.3 only.
pub fn supported_qt_profile(major: u8, version: &[u8]) -> (r: bool)
    ensures
        r == (major == 6 && is_qt6_translation_version(version@)),
{
    supported_qt_profile_in(QtProfileSet::Production, major, version)
}

/// Immediate language-change refresh is verified for the same profile.
pub fn supports_immediate_refresh(major: u8, version: &[u8]) -> (r: bool)
    ensures
        r == (major == 6 && is_qt6_translation_version(version@)),
{
    supports_immediate_refresh_in(QtProfileSet::Production, major, version)
}

/// The decorated `qMalloc` export the research Qt 5 refresh allocates its event with.
pub const QMALLOC_SYMBOL: &'static str = "?qMalloc@@YAPEAX_K@Z\0";

/// Qt Quick retained labels: Qt 6.8.3 and 6.11.1.
pub open spec fn is_qt_quick_version(version: Seq<u8>) -> bool {
    version == seq![0x36u8, 0x2Eu8, 0x38u8, 0x2Eu8, 0x33u8]
        || version == seq![0x36u8, 0x2Eu8, 0x31u8, 0x31u8, 0x2Eu8, 0x31u8]
}

pub fn supported_qt_version(version: &[u8]) -> (r: bool)
    ensures
        r == is_qt_quick_version(version@),
{
    seq_eq_bytes(version, &[0x36u8, 0x2Eu8, 0x38u8, 0x2Eu8, 0x33u8])
        || seq_eq_bytes(version, &[0x36u8, 0x2Eu8, 0x31u8, 0x31u8, 0x2Eu8, 0x31u8])
}

/// The Qt exports the translation hook and the language-change refresh resolve on MSVC x64,
/// with their terminating NUL.
pub const TRANSLATE_SYMBOL: &'static str = "?translate@QCoreApplication@@SA?AVQString@@PEBD00H@Z\0";
pub const QCORE_INSTANCE_SYMBOL: &'static str = "?instance@QCoreApplication@@SAPEAV1@XZ\0";
pub const QCORE_POST_EVENT_SYMBOL: &'static str = "?postEvent@QCoreApplication@@SAXPEAVQObject@@PEAVQEvent@@H@Z\0";
pub const QEVENT_CTOR_SYMBOL: &'static str = "??0QEvent@@QEAA@W4Type@0@@Z\0";
pub const QEVENT_DTOR_SYMBOL: &'static str = "??1QEvent@@UEAA@XZ\0";
pub const QEVENT_CLONE_SYMBOL: &'static str = "?clone@QEvent@@UEBAPEAV1@XZ\0";
/// `QEvent::LanguageChange`.
pub const QEVENT_LANGUAGE_CHANGE: i32 = 89;

pub const MAX_TEXT_UNITS: usize = 16 * 1024;
/// The longest C string parameter read from a `translate` call.
pub const MAX_PARAMETER_BYTES: usize = 64 * 1024;

/// One `QCoreApplication::translate(context, sourceText, disambiguation, n)` call.
#[derive(Clone, Debug, PartialEq, Eq)]
pub struct TranslationCall {
    pub context: Option<String>,
    pub source: String,
    pub disambiguation: Option<String>,
    pub n: i32,
}

/// The text parts of the event a translation call is reported with: the source, context
/// and disambiguation in UTF-16 (each optional part present exactly when the call had
/// it), and the plural count, present when `n` is not negative.
#[derive(Clone, Debug, PartialEq, Eq)]
pub struct TranslationEventText {
    pub source: Vec<u16>,
    pub context: Option<Vec<u16>>,
    pub disambiguation: Option<Vec<u16>>,
    pub plural_n: Option<i32>,
}

fn optional_utf16(value: &Option<String>) -> (r: Option<Vec<u16>>)
    ensures
        match value {
            Some(v) => r matches Some(u) && u@ == utf16(v@),
            None => r is None,
        },
{
    match value {
        Some(v) => {
            let chars = chars_of(v.as_str());
            Some(encode_utf16(chars.as_slice()))
        },
        None => None,
    }
}

/// The text parts of the event that reports `call`.
pub fn encode_translation_event(call: &TranslationCall) -> (r: TranslationEventText)
    ensures
        r.source@ == utf16(call.source@),
        match call.context {
            Some(v) => r.context matches Some(u) && u@ == utf16(v@),
            None => r.context is None,
        },
        match call.disambiguation {
            Some(v) => r.disambiguation matches Some(u) && u@ == utf16(v@),
            None => r.disambiguation is None,
        },
        r.plural_n == if call.n >= 0 { Some(call.n) } else { None::<i32> },
{
    let chars = chars_of(call.source.as_str());
    TranslationEventText {
        source: encode_utf16(chars.as_slice()),
        context: optional_utf16(&call.context),
        disambiguation: optional_utf16(&call.disambiguation),
        plural_n: if call.n >= 0 { Some(call.n) } else { None },
    }
}


/// A C string parameter, by its bytes: bounded UTF-8.
pub open spec fn parameter_text(bytes: Seq<u8>) -> Option<Seq<char>> {
    if bytes.len() > MAX_PARAMETER_BYTES { None } else { utf8_chars(bytes) }
}

/// An optional parameter (`None`: a null pointer): absent, or its text; `None` when unreadable.
pub open spec fn optional_parameter(bytes: Option<Seq<u8>>) -> Option<Option<Seq<char>>> {
    match bytes {
        None => Some(None),
        Some(b) => match parameter_text(b) {
            Some(t) => Some(Some(t)),
            None => None,
        },
    }
}

pub open spec fn within(t: Option<Seq<char>>, limit: nat) -> bool {
    match t {
        Some(v) => utf16_len(v) <= limit,
        None => true,
    }
}

/// The call the hook hands to the host, or `None` when it passes through untouched: the
/// source must be present, non-blank and bounded, and the metadata readable and bounded.
pub open spec fn translation_call_of(context: Option<Seq<u8>>, source: Option<Seq<u8>>, disambiguation: Option<Seq<u8>>,
    context_limit: nat) -> Option<(Option<Seq<char>>, Seq<char>, Option<Seq<char>>)> {
    match (optional_parameter(context), source, optional_parameter(disambiguation)) {
        (Some(c), Some(sb), Some(d)) => match parameter_text(sb) {
            Some(src) => if utf16_len(src) != 0 && utf16_len(src) <= MAX_TEXT_UNITS && trim(src).len() != 0
                && within(c, context_limit) && within(d, context_limit) {
                Some((c, src, d))
            } else {
                None
            },
            None => None,
        },
        _ => None,
    }
}

fn read_parameter(bytes: &[u8]) -> (r: Option<String>)
    ensures
        match r {
            Some(s) => parameter_text(bytes@) == Some(s@),
            None => parameter_text(bytes@) is None,
        },
{
    if bytes.len() > MAX_PARAMETER_BYTES {
        return None;
    }
    match utf8_str(bytes) {
        Some(s) => {
            let c = chars_of(s);
            Some(string_of(&c))
        },
        None => None,
    }
}

fn read_optional(bytes: Option<&[u8]>) -> (r: Option<Option<String>>)
    ensures
        match r {
            Some(Some(s)) => optional_parameter(match bytes { Some(b) => Some(b@), None => None }) == Some(Some(s@)),
            Some(None) => optional_parameter(match bytes { Some(b) => Some(b@), None => None }) == Some(None::<Seq<char>>),
            None => optional_parameter(match bytes { Some(b) => Some(b@), None => None }) is None,
        },
{
    match bytes {
        None => Some(None),
        Some(b) => match read_parameter(b) {
            Some(s) => Some(Some(s)),
            None => None,
        },
    }
}

fn within_exec(t: &Option<String>, limit: usize) -> (r: bool)
    requires
        limit < usize::MAX - 2,
    ensures
        r == within(match t { Some(v) => Some(v@), None => None }, limit as nat),
{
    match t {
        Some(v) => {
            let c = chars_of(v.as_str());
            !utf16_len_exceeds(&c, limit)
        },
        None => true,
    }
}

/// The call from the parameters' bytes (`None` for a null pointer).
pub fn translation_call(context: Option<&[u8]>, source: Option<&[u8]>, disambiguation: Option<&[u8]>, n: i32,
    context_limit: usize) -> (r: Option<TranslationCall>)
    requires
        context_limit < usize::MAX - 2,
    ensures
        ({
            let spec = translation_call_of(match context { Some(b) => Some(b@), None => None },
                match source { Some(b) => Some(b@), None => None },
                match disambiguation { Some(b) => Some(b@), None => None }, context_limit as nat);
            match r {
                Some(call) => spec == Some((match call.context { Some(v) => Some(v@), None => None }, call.source@,
                    match call.disambiguation { Some(v) => Some(v@), None => None })) && call.n == n,
                None => spec is None,
            }
        }),
{
    let c = match read_optional(context) {
        Some(c) => c,
        None => return None,
    };
    let sb = match source {
        Some(b) => b,
        None => return None,
    };
    let src = match read_parameter(sb) {
        Some(s) => s,
        None => {
            let _ = read_optional(disambiguation);
            return None;
        },
    };
    let d = match read_optional(disambiguation) {
        Some(d) => d,
        None => return None,
    };
    let chars = chars_of(src.as_str());
    let trimmed = trim_chars(&chars);
    if chars.len() == 0 || utf16_len_exceeds(&chars, MAX_TEXT_UNITS) || trimmed.len() == 0
        || !within_exec(&c, context_limit) || !within_exec(&d, context_limit) {
        proof {
            crate::unicode::lemma_utf16_len_at_least(chars@);
        }
        return None;
    }
    proof {
        crate::unicode::lemma_utf16_len_at_least(chars@);
    }
    Some(TranslationCall { context: c, source: src, disambiguation: d, n })
}

/// The translation handed back to Qt: a decided, well-formed, non-empty text without NUL
/// that keeps the source's placeholders.
pub open spec fn translation_of(source: Seq<char>, replace_active: bool, decided: bool, units: Seq<u16>) -> Option<Seq<char>> {
    if !replace_active || !decided || units.len() == 0 {
        None
    } else {
        match utf16_decode(units) {
            Some(t) => if t.len() > 0 && placeholders_match(source, t) && !t.contains('\0') { Some(t) } else { None },
            None => None,
        }
    }
}

pub fn replacement_for(call: &TranslationCall, replace_active: bool, decided: bool, units: &[u16]) -> (r: Option<String>)
    ensures
        match r {
            Some(t) => translation_of(call.source@, replace_active, decided, units@) == Some(t@),
            None => translation_of(call.source@, replace_active, decided, units@) is None,
        },
{
    if !replace_active || !decided || units.len() == 0 {
        return None;
    }
    match decode_utf16(units) {
        Some(t) => {
            let s = string_of(&t);
            if t.len() > 0 && qt_placeholders_compatible(call.source.as_str(), s.as_str()) && !contains_char(&t, '\0') {
                Some(s)
            } else {
                None
            }
        },
        None => None,
    }
}

} // verus!
