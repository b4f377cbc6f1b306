//! Character classes, trimming and UTF-16 encoding shared by the adapters.
use vstd::prelude::*;
use vstd::std_specs::iter::IteratorSpec;

verus! {

/// UTF-16 code units of one scalar value.
pub open spec fn char_utf16(c: char) -> Seq<u16> {
    let v = c as u32;
    if v < 0x10000 {
        seq![v as u16]
    } else {
        let w = (v - 0x10000) as int;
        seq![(0xD800 + w / 1024) as u16, (0xDC00 + w % 1024) as u16]
    }
}

/// UTF-16 encoding of a character sequence.
pub open spec fn utf16(s: Seq<char>) -> Seq<u16>
    decreases s.len(),
{
    if s.len() == 0 {
        seq![]
    } else {
        char_utf16(s[0]) + utf16(s.drop_first())
    }
}

/// Number of UTF-16 code units of `s`.
pub open spec fn utf16_len(s: Seq<char>) -> nat {
    utf16(s).len()
}

/// The scalar value that a surrogate pair stands for.
pub open spec fn surrogate_pair_value(high: u16, low: u16) -> u32 {
    (0x10000 + (high - 0xD800) * 1024 + (low - 0xDC00)) as u32
}

pub open spec fn is_surrogate(u: u16) -> bool {
    0xD800 <= u <= 0xDFFF
}

pub open spec fn is_high_surrogate(u: u16) -> bool {
    0xD800 <= u <= 0xDBFF
}

pub open spec fn is_low_surrogate(u: u16) -> bool {
    0xDC00 <= u <= 0xDFFF
}

/// Strict UTF-16 decoding: `None` when a surrogate is unpaired.
pub open spec fn utf16_decode(u: Seq<u16>) -> Option<Seq<char>>
    decreases u.len(),
{
    if u.len() == 0 {
        Some(seq![])
    } else if !is_surrogate(u[0]) {
        match utf16_decode(u.drop_first()) {
            Some(rest) => Some(seq![(u[0] as u32) as char] + rest),
            None => None,
        }
    } else if is_high_surrogate(u[0]) && u.len() >= 2 && is_low_surrogate(u[1]) {
        match utf16_decode(u.subrange(2, u.len() as int)) {
            Some(rest) => Some(seq![surrogate_pair_value(u[0], u[1]) as char] + rest),
            None => None,
        }
    } else {
        None
    }
}

/// Rust's `char::is_whitespace`: the Unicode `White_Space` property.
pub open spec fn is_whitespace(c: char) -> bool {
    let v = c as u32;
    (0x09 <= v <= 0x0D) || v == 0x20 || v == 0x85 || v == 0xA0 || v == 0x1680
        || (0x2000 <= v <= 0x200A) || v == 0x2028 || v == 0x2029 || v == 0x202F
        || v == 0x205F || v == 0x3000
}

/// Rust's `char::is_control`: the general category `Cc`.
pub open spec fn is_control(c: char) -> bool {
    let v = c as u32;
    v <= 0x1F || (0x7F <= v <= 0x9F)
}

pub open spec fn trim_start(s: Seq<char>) -> Seq<char>
    decreases s.len(),
{
    if s.len() > 0 && is_whitespace(s[0]) {
        trim_start(s.drop_first())
    } else {
        s
    }
}

pub open spec fn trim_end(s: Seq<char>) -> Seq<char>
    decreases s.len(),
{
    if s.len() > 0 && is_whitespace(s.last()) {
        trim_end(s.drop_last())
    } else {
        s
    }
}

/// `str::trim`: whitespace removed from both ends.
pub open spec fn trim(s: Seq<char>) -> Seq<char> {
    trim_end(trim_start(s))
}

/// True when every character is whitespace (so `trim` leaves nothing).
pub open spec fn all_whitespace(s: Seq<char>) -> bool {
    forall|i: int| 0 <= i < s.len() ==> is_whitespace(#[trigger] s[i])
}

/// No byte of a character's UTF-8 encoding is the ASCII byte `x`, unless the character is `x`.
pub proof fn lemma_scalar_avoids_ascii(c: char, x: u8)
    requires
        x < 0x80,
        c as u32 != x as u32,
    ensures
        forall|k: int| 0 <= k < vstd::utf8::encode_scalar(c as u32).len() ==> #[trigger] vstd::utf8::encode_scalar(
            c as u32,
        )[k] != x,
{
    let v = c as u32;
    assert(v <= 0x7F && v != x as u32 ==> (v & 0x7F) as u8 != x) by (bit_vector);
    assert(x < 0x80 ==> 0xC0u8 | ((v >> 6) & 0x1F) as u8 != x) by (bit_vector);
    assert(x < 0x80 ==> 0xE0u8 | ((v >> 12) & 0x0F) as u8 != x) by (bit_vector);
    assert(x < 0x80 ==> 0xF0u8 | ((v >> 18) & 0x7) as u8 != x) by (bit_vector);
    assert(x < 0x80 ==> 0x80u8 | (v & 0x3F) as u8 != x) by (bit_vector);
    assert(x < 0x80 ==> 0x80u8 | ((v >> 6) & 0x3F) as u8 != x) by (bit_vector);
    assert(x < 0x80 ==> 0x80u8 | ((v >> 12) & 0x3F) as u8 != x) by (bit_vector);
}

/// The UTF-8 encoding of a text without the ASCII character `a` holds no byte `a`.
pub proof fn lemma_encode_avoids_ascii(s: Seq<char>, a: char, x: u8)
    requires
        x < 0x80,
        a as u32 == x as u32,
        !s.contains(a),
    ensures
        forall|k: int| 0 <= k < vstd::utf8::encode_utf8(s).len() ==> #[trigger] vstd::utf8::encode_utf8(s)[k] != x,
    decreases s.len(),
{
    if s.len() > 0 {
        assert(s[0] != a);
        vstd::utf8::char_u32_cast(s[0], s[0] as u32);
        vstd::utf8::char_u32_cast(a, a as u32);
        lemma_scalar_avoids_ascii(s[0], x);
        assert(!s.drop_first().contains(a)) by {
            if s.drop_first().contains(a) {
                let k = choose|k: int| 0 <= k < s.drop_first().len() && s.drop_first()[k] == a;
                assert(s[k + 1] == a);
            }
        }
        lemma_encode_avoids_ascii(s.drop_first(), a, x);
        let head = vstd::utf8::encode_scalar(s[0] as u32);
        let rest = vstd::utf8::encode_utf8(s.drop_first());
        assert(vstd::utf8::encode_utf8(s) == head + rest);
        assert forall|k: int| 0 <= k < (head + rest).len() implies #[trigger] (head + rest)[k] != x by {
            if k < head.len() {
                assert((head + rest)[k] == head[k]);
            } else {
                assert((head + rest)[k] == rest[k - head.len()]);
            }
        }
    }
}

/// `trim_end` keeps a prefix, and keeps at least the first character when it is not
/// whitespace.
pub proof fn lemma_trim_end_prefix(s: Seq<char>)
    ensures
        trim_end(s).len() <= s.len(),
        forall|i: int| 0 <= i < trim_end(s).len() ==> #[trigger] trim_end(s)[i] == s[i],
        s.len() > 0 && !is_whitespace(s[0]) ==> trim_end(s).len() > 0,
    decreases s.len(),
{
    if s.len() > 0 && is_whitespace(s.last()) {
        lemma_trim_end_prefix(s.drop_last());
    }
}

/// Trimming keeps no character the text did not have.
pub proof fn lemma_trim_avoids(t: Seq<char>, c: char)
    requires
        !t.contains(c),
    ensures
        !trim(t).contains(c),
    decreases t.len(),
{
    if t.len() > 0 && is_whitespace(t[0]) {
        assert(!t.drop_first().contains(c)) by {
            if t.drop_first().contains(c) {
                let k = choose|k: int| 0 <= k < t.drop_first().len() && t.drop_first()[k] == c;
                assert(t[k + 1] == c);
            }
        }
        lemma_trim_avoids(t.drop_first(), c);
        assert(trim(t) == trim(t.drop_first()));
    } else {
        assert(trim_start(t) == t);
        lemma_trim_end_prefix(t);
        if trim(t).contains(c) {
            let k = choose|k: int| 0 <= k < trim(t).len() && trim(t)[k] == c;
            assert(t[k] == c);
        }
    }
}

proof fn lemma_trim_end_last(s: Seq<char>)
    ensures
        trim_end(s).len() > 0 ==> !is_whitespace(trim_end(s).last()),
    decreases s.len(),
{
    if s.len() > 0 && is_whitespace(s.last()) {
        lemma_trim_end_last(s.drop_last());
    }
}

/// Trimming twice is trimming once.
pub proof fn lemma_trim_idempotent(s: Seq<char>)
    ensures
        trim(trim(s)) == trim(s),
{
    let u = trim_start(s);
    let t = trim(s);
    if t.len() > 0 {
        lemma_trim_start_nonws(s);
        lemma_trim_end_prefix(u);
        lemma_trim_end_last(u);
        assert(t[0] == u[0]);
        assert(trim_start(t) == t);
        assert(trim_end(t) == t);
    } else {
        assert(trim_start(t) == t);
    }
}

pub proof fn lemma_utf16_concat(a: Seq<char>, b: Seq<char>)
    ensures
        utf16(a + b) == utf16(a) + utf16(b),
    decreases a.len(),
{
    if a.len() == 0 {
        assert(a + b =~= b);
        assert(utf16(a) + utf16(b) =~= utf16(b));
    } else {
        assert((a + b).drop_first() =~= a.drop_first() + b);
        lemma_utf16_concat(a.drop_first(), b);
        assert(utf16(a + b) =~= char_utf16(a[0]) + utf16(a.drop_first() + b));
        assert(utf16(a) + utf16(b) =~= char_utf16(a[0]) + (utf16(a.drop_first()) + utf16(b)));
    }
}

pub proof fn lemma_utf16_single(c: char)
    ensures
        utf16(seq![c]) == char_utf16(c),
{
    assert(seq![c].drop_first() =~= Seq::<char>::empty());
    assert(utf16(seq![c]) =~= char_utf16(c) + utf16(Seq::<char>::empty()));
}

pub proof fn lemma_utf16_push(s: Seq<char>, c: char)
    ensures
        utf16(s.push(c)) == utf16(s) + char_utf16(c),
{
    assert(s.push(c) =~= s + seq![c]);
    lemma_utf16_concat(s, seq![c]);
    lemma_utf16_single(c);
}

pub proof fn lemma_utf16_take_step(s: Seq<char>, i: int)
    requires
        0 <= i < s.len(),
    ensures
        utf16(s.take(i + 1)) == utf16(s.take(i)) + char_utf16(s[i]),
{
    assert(s.take(i + 1) =~= s.take(i).push(s[i]));
    lemma_utf16_push(s.take(i), s[i]);
}

pub proof fn lemma_utf16_len_at_least(s: Seq<char>)
    ensures
        utf16_len(s) >= s.len(),
    decreases s.len(),
{
    if s.len() > 0 {
        lemma_utf16_len_at_least(s.drop_first());
    }
}

/// The string's characters, in order, read off `str::chars`.
pub(crate) fn chars_of(s: &str) -> (r: Vec<char>)
    ensures
        r@ == s@,
{
    broadcast use vstd::string::axiom_spec_iter;
    let mut out: Vec<char> = Vec::new();
    let walk = s.chars();
    let ghost all = vstd::string::spec_iter(s).remaining();
    for c in it: walk
        invariant
            it.seq() == all,
            all == s@,
            out@ == all.take(it.index()),
    {
        proof {
            assert(all.take(it.index() + 1) =~= all.take(it.index()).push(c));
        }
        out.push(c);
    }
    proof {
        assert(all.take(all.len() as int) =~= all);
    }
    out
}

/// `String`'s `FromIterator<&char>`: the string holding exactly the given characters.
#[verifier::external_body]
pub(crate) fn string_of(chars: &[char]) -> (r: String)
    ensures
        r@ == chars@,
{
    chars.iter().collect()
}

/// `char::from_u32`: the character with scalar value `v`, when `v` is a Unicode scalar value.
#[verifier::external_body]
pub(crate) fn char_from_u32(v: u32) -> (r: Option<char>)
    ensures
        r is Some <==> vstd::utf8::is_scalar(v),
        r matches Some(c) ==> c as u32 == v,
{
    char::from_u32(v)
}

pub proof fn lemma_decode_step_single(u: Seq<u16>, i: int)
    requires
        0 <= i < u.len(),
        !is_surrogate(u[i]),
    ensures
        utf16_decode(u.skip(i)) == match utf16_decode(u.skip(i + 1)) {
            Some(rest) => Some(seq![(u[i] as u32) as char] + rest),
            None => None::<Seq<char>>,
        },
{
    assert(u.skip(i).drop_first() =~= u.skip(i + 1));
    assert(u.skip(i)[0] == u[i]);
}

pub proof fn lemma_decode_step_pair(u: Seq<u16>, i: int)
    requires
        0 <= i,
        i + 1 < u.len(),
        is_high_surrogate(u[i]),
        is_low_surrogate(u[i + 1]),
    ensures
        utf16_decode(u.skip(i)) == match utf16_decode(u.skip(i + 2)) {
            Some(rest) => Some(seq![surrogate_pair_value(u[i], u[i + 1]) as char] + rest),
            None => None::<Seq<char>>,
        },
{
    let t = u.skip(i);
    assert(t.subrange(2, t.len() as int) =~= u.skip(i + 2));
    assert(t[0] == u[i] && t[1] == u[i + 1]);
}

/// `String::from_utf16`: strict decoding of UTF-16 code units.
pub fn decode_utf16(units: &[u16]) -> (r: Option<Vec<char>>)
    ensures
        match r {
            Some(v) => utf16_decode(units@) == Some(v@),
            None => utf16_decode(units@) is None,
        },
{
    let mut out: Vec<char> = Vec::new();
    let mut i: usize = 0;
    assert(units@.skip(0) =~= units@);
    while i < units.len()
        invariant
            i <= units.len(),
            utf16_decode(units@) == match utf16_decode(units@.skip(i as int)) {
                Some(rest) => Some(out@ + rest),
                None => None::<Seq<char>>,
            },
        decreases units.len() - i,
    {
        let u = units[i];
        if u < 0xD800 || u > 0xDFFF {
            proof {
                lemma_decode_step_single(units@, i as int);
            }
            let c = match char_from_u32(u as u32) {
                Some(c) => c,
                None => {
                    return None;
                },
            };
            proof {
                vstd::utf8::char_u32_cast(c, c as u32);
                assert(forall|rest: Seq<char>| out@ + (seq![c] + rest) =~= out@.push(c) + rest);
            }
            out.push(c);
            i += 1;
        } else if u <= 0xDBFF && i + 1 < units.len() && 0xDC00 <= units[i + 1]
            && units[i + 1] <= 0xDFFF {
            let low = units[i + 1];
            proof {
                lemma_decode_step_pair(units@, i as int);
            }
            let v: u32 = 0x10000 + ((u - 0xD800) as u32) * 1024 + ((low - 0xDC00) as u32);
            let c = match char_from_u32(v) {
                Some(c) => c,
                None => {
                    return None;
                },
            };
            proof {
                vstd::utf8::char_u32_cast(c, c as u32);
                assert(forall|rest: Seq<char>| out@ + (seq![c] + rest) =~= out@.push(c) + rest);
            }
            out.push(c);
            i += 2;
        } else {
            proof {
                let t = units@.skip(i as int);
                assert(t[0] == u);
                if t.len() >= 2 {
                    assert(t[1] == units@[i + 1]);
                }
            }
            return None;
        }
    }
    proof {
        assert(units@.skip(i as int) =~= Seq::<u16>::empty());
        assert(out@ + Seq::<char>::empty() =~= out@);
    }
    Some(out)
}

/// Decoding undoes encoding: `String::from_utf16(&s.encode_utf16())` gives `s` back.
pub proof fn lemma_utf16_roundtrip(s: Seq<char>)
    ensures
        utf16_decode(utf16(s)) == Some(s),
    decreases s.len(),
{
    if s.len() > 0 {
        let c = s[0];
        let rest = s.drop_first();
        lemma_utf16_roundtrip(rest);
        vstd::utf8::char_is_scalar(c);
        vstd::utf8::char_u32_cast(c, c as u32);
        let e = utf16(s);
        assert(e == char_utf16(c) + utf16(rest));
        let v = c as u32;
        if v < 0x10000 {
            assert(e.drop_first() =~= utf16(rest));
            assert(e[0] == v as u16);
            assert(((v as u16) as u32) == v);
        } else {
            let w = (v - 0x10000) as int;
            assert(w == (w / 1024) * 1024 + w % 1024) by (nonlinear_arith);
            assert(0 <= w % 1024 < 1024) by (nonlinear_arith);
            assert(w < 0x100000);
            assert(w / 1024 < 1024) by (nonlinear_arith)
                requires w < 0x100000, w >= 0;
            assert(e.subrange(2, e.len() as int) =~= utf16(rest));
            assert(surrogate_pair_value(e[0], e[1]) == v);
        }
        assert(s =~= seq![c] + rest);
    }
}

/// Appends the UTF-16 encoding of `c`.
pub fn push_char_utf16(out: &mut Vec<u16>, c: char)
    ensures
        final(out)@ == old(out)@ + char_utf16(c),
{
    let v = c as u32;
    if v < 0x10000 {
        out.push(v as u16);
    } else {
        let w = v - 0x10000;
        assert(w < 0x100000) by {
            vstd::utf8::char_is_scalar(c);
        }
        out.push((0xD800 + w / 1024) as u16);
        out.push((0xDC00 + w % 1024) as u16);
    }
}

/// `str::encode_utf16().collect()`.
pub fn encode_utf16(chars: &[char]) -> (r: Vec<u16>)
    ensures
        r@ == utf16(chars@),
{
    let mut out: Vec<u16> = Vec::new();
    let mut i: usize = 0;
    while i < chars.len()
        invariant
            i <= chars.len(),
            out@ == utf16(chars@.take(i as int)),
        decreases chars.len() - i,
    {
        proof {
            lemma_utf16_take_step(chars@, i as int);
        }
        push_char_utf16(&mut out, chars[i]);
        i += 1;
    }
    assert(chars@.take(chars.len() as int) =~= chars@);
    out
}

/// True when the UTF-16 length of `chars` exceeds `limit`.
pub fn utf16_len_exceeds(chars: &[char], limit: usize) -> (r: bool)
    requires
        limit < usize::MAX - 2,
    ensures
        r == (utf16_len(chars@) > limit),
{
    let mut count: usize = 0;
    let mut i: usize = 0;
    while i < chars.len()
        invariant
            i <= chars.len(),
            limit < usize::MAX - 2,
            count == utf16_len(chars@.take(i as int)),
            count <= limit,
        decreases chars.len() - i,
    {
        proof {
            lemma_utf16_take_step(chars@, i as int);
        }
        if (chars[i] as u32) < 0x10000 {
            count += 1;
        } else {
            count += 2;
        }
        i += 1;
        if count > limit {
            proof {
                let s = chars@;
                assert(s =~= s.take(i as int) + s.skip(i as int));
                lemma_utf16_concat(s.take(i as int), s.skip(i as int));
            }
            return true;
        }
    }
    assert(chars@.take(chars.len() as int) =~= chars@);
    false
}

pub fn is_whitespace_char(c: char) -> (r: bool)
    ensures
        r == is_whitespace(c),
{
    let v = c as u32;
    (0x09 <= v && v <= 0x0D) || v == 0x20 || v == 0x85 || v == 0xA0 || v == 0x1680
        || (0x2000 <= v && v <= 0x200A) || v == 0x2028 || v == 0x2029 || v == 0x202F
        || v == 0x205F || v == 0x3000
}

pub fn is_control_char(c: char) -> (r: bool)
    ensures
        r == is_control(c),
{
    let v = c as u32;
    v <= 0x1F || (0x7F <= v && v <= 0x9F)
}

pub proof fn lemma_trim_start_skip(s: Seq<char>, i: int)
    requires
        0 <= i < s.len(),
        is_whitespace(s[i]),
    ensures
        trim_start(s.skip(i)) == trim_start(s.skip(i + 1)),
{
    assert(s.skip(i).drop_first() =~= s.skip(i + 1));
}

pub proof fn lemma_trim_end_take(s: Seq<char>, j: int)
    requires
        0 < j <= s.len(),
        is_whitespace(s[j - 1]),
    ensures
        trim_end(s.take(j)) == trim_end(s.take(j - 1)),
{
    assert(s.take(j).drop_last() =~= s.take(j - 1));
}

/// Index of the first non-whitespace character (or the length).
pub fn trim_start_index(chars: &[char]) -> (r: usize)
    ensures
        r <= chars.len(),
        trim_start(chars@) == chars@.skip(r as int),
        forall|k: int| 0 <= k < r ==> is_whitespace(#[trigger] chars@[k]),
{
    let mut i: usize = 0;
    assert(chars@.skip(0) =~= chars@);
    while i < chars.len() && is_whitespace_char(chars[i])
        invariant
            i <= chars.len(),
            trim_start(chars@) == trim_start(chars@.skip(i as int)),
            forall|k: int| 0 <= k < i ==> is_whitespace(#[trigger] chars@[k]),
        decreases chars.len() - i,
    {
        proof {
            lemma_trim_start_skip(chars@, i as int);
        }
        i += 1;
    }
    proof {
        let t = chars@.skip(i as int);
        if t.len() > 0 {
            assert(t[0] == chars@[i as int]);
        }
    }
    i
}

/// `str::trim` on a character sequence.
pub fn trim_chars(chars: &[char]) -> (r: Vec<char>)
    ensures
        r@ == trim(chars@),
{
    let start = trim_start_index(chars);
    let mut end: usize = chars.len();
    let ghost t = chars@.skip(start as int);
    assert(t.take(end - start) =~= t);
    while end > start && is_whitespace_char(chars[end - 1])
        invariant
            start <= end <= chars.len(),
            t == chars@.skip(start as int),
            trim_end(t) == trim_end(t.take(end - start)),
        decreases end,
    {
        proof {
            lemma_trim_end_take(t, (end - start) as int);
        }
        end -= 1;
    }
    let mut out: Vec<char> = Vec::new();
    let mut k: usize = start;
    while k < end
        invariant
            start <= k <= end <= chars.len(),
            out@ == chars@.subrange(start as int, k as int),
        decreases end - k,
    {
        out.push(chars[k]);
        k += 1;
    }
    proof {
        let u = t.take(end - start);
        assert(u =~= chars@.subrange(start as int, end as int));
        if u.len() > 0 {
            assert(!is_whitespace(u.last()));
        }
    }
    out
}

pub proof fn lemma_trim_start_empty(s: Seq<char>)
    ensures
        trim_start(s).len() == 0 <==> all_whitespace(s),
    decreases s.len(),
{
    if s.len() > 0 {
        lemma_trim_start_empty(s.drop_first());
        if is_whitespace(s[0]) {
            assert(all_whitespace(s) <==> all_whitespace(s.drop_first())) by {
                if all_whitespace(s.drop_first()) {
                    assert forall|i: int| 0 <= i < s.len() implies is_whitespace(#[trigger] s[i]) by {
                        if i > 0 {
                            assert(s[i] == s.drop_first()[i - 1]);
                        }
                    }
                }
            }
        }
    }
}

pub proof fn lemma_trim_end_keeps_nonempty(s: Seq<char>)
    requires
        s.len() > 0,
        !is_whitespace(s[0]),
    ensures
        trim_end(s).len() > 0,
    decreases s.len(),
{
    if is_whitespace(s.last()) {
        lemma_trim_end_keeps_nonempty(s.drop_last());
    }
}

/// `trim` leaves nothing exactly when every character is whitespace.
pub proof fn lemma_trim_empty(s: Seq<char>)
    ensures
        trim(s).len() == 0 <==> all_whitespace(s),
{
    lemma_trim_start_empty(s);
    let t = trim_start(s);
    if t.len() > 0 {
        lemma_trim_start_nonws(s);
        lemma_trim_end_keeps_nonempty(t);
    }
}

pub proof fn lemma_trim_start_nonws(s: Seq<char>)
    ensures
        trim_start(s).len() > 0 ==> !is_whitespace(trim_start(s)[0]),
    decreases s.len(),
{
    if s.len() > 0 && is_whitespace(s[0]) {
        lemma_trim_start_nonws(s.drop_first());
    }
}

/// True when the sequence holds only whitespace (`s.trim().is_empty()`).
pub fn is_blank(chars: &[char]) -> (r: bool)
    ensures
        r == all_whitespace(chars@),
        r == (trim(chars@).len() == 0),
{
    proof {
        lemma_trim_empty(chars@);
    }
    let mut i: usize = 0;
    while i < chars.len()
        invariant
            i <= chars.len(),
            forall|k: int| 0 <= k < i ==> is_whitespace(#[trigger] chars@[k]),
        decreases chars.len() - i,
    {
        if !is_whitespace_char(chars[i]) {
            assert(!is_whitespace(chars@[i as int]));
            proof {
                lemma_trim_empty(chars@);
            }
            return false;
        }
        i += 1;
    }
    true
}

} // verus!
