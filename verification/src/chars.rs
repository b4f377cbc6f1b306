//! Small verified operations on character and byte sequences.
use vstd::prelude::*;

verus! {

/// A copy of `v[a..e]`.
pub fn copy_range<T: Copy>(v: &[T], a: usize, e: usize) -> (r: Vec<T>)
    requires
        a <= e <= v.len(),
    ensures
        r@ == v@.subrange(a as int, e as int),
{
    let mut out: Vec<T> = Vec::new();
    let mut k: usize = a;
    while k < e
        invariant
            a <= k <= e <= v.len(),
            out@ == v@.subrange(a as int, k as int),
        decreases e - k,
    {
        out.push(v[k]);
        k += 1;
    }
    out
}

/// Appends all of `src` to `dst`.
pub fn append_all<T: Copy>(dst: &mut Vec<T>, src: &[T])
    ensures
        final(dst)@ == old(dst)@ + src@,
{
    let mut k: usize = 0;
    while k < src.len()
        invariant
            k <= src.len(),
            dst@ == old(dst)@ + src@.take(k as int),
        decreases src.len() - k,
    {
        dst.push(src[k]);
        k += 1;
        assert(src@.take(k as int) =~= src@.take(k - 1).push(src@[k - 1]));
    }
    assert(src@.take(src.len() as int) =~= src@);
}

/// `v == w` for byte sequences.
pub fn seq_eq_bytes(v: &[u8], w: &[u8]) -> (r: bool)
    ensures
        r == (v@ == w@),
{
    if v.len() != w.len() {
        return false;
    }
    let mut i: usize = 0;
    while i < v.len()
        invariant
            i <= v.len(),
            v.len() == w.len(),
            forall|k: int| 0 <= k < i ==> v@[k] == w@[k],
        decreases v.len() - i,
    {
        if v[i] != w[i] {
            return false;
        }
        i += 1;
    }
    assert(v@ =~= w@);
    true
}

/// `v == w` for character sequences.
pub fn chars_eq(v: &[char], w: &[char]) -> (r: bool)
    ensures
        r == (v@ == w@),
{
    if v.len() != w.len() {
        return false;
    }
    let mut i: usize = 0;
    while i < v.len()
        invariant
            i <= v.len(),
            v.len() == w.len(),
            forall|k: int| 0 <= k < i ==> v@[k] == w@[k],
        decreases v.len() - i,
    {
        if v[i] != w[i] {
            return false;
        }
        i += 1;
    }
    assert(v@ =~= w@);
    true
}

/// `a == b` for string slices.
pub fn str_eq(a: &str, b: &str) -> (r: bool)
    ensures
        r == (a@ == b@),
{
    let x = crate::unicode::chars_of(a);
    let y = crate::unicode::chars_of(b);
    chars_eq(&x, &y)
}

/// `v.contains(&c)`.
pub fn contains_char(v: &[char], c: char) -> (r: bool)
    ensures
        r == v@.contains(c),
{
    let mut i: usize = 0;
    while i < v.len()
        invariant
            i <= v.len(),
            forall|k: int| 0 <= k < i ==> v@[k] != c,
        decreases v.len() - i,
    {
        if v[i] == c {
            assert(v@[i as int] == c);
            return true;
        }
        i += 1;
    }
    false
}

/// `v.contains(&b)` for bytes.
pub fn contains_byte(v: &[u8], b: u8) -> (r: bool)
    ensures
        r == v@.contains(b),
{
    let mut i: usize = 0;
    while i < v.len()
        invariant
            i <= v.len(),
            forall|k: int| 0 <= k < i ==> v@[k] != b,
        decreases v.len() - i,
    {
        if v[i] == b {
            assert(v@[i as int] == b);
            return true;
        }
        i += 1;
    }
    false
}

/// `v.contains(&u)` for UTF-16 units.
pub fn contains_unit(v: &[u16], u: u16) -> (r: bool)
    ensures
        r == v@.contains(u),
{
    let mut i: usize = 0;
    while i < v.len()
        invariant
            i <= v.len(),
            forall|k: int| 0 <= k < i ==> v@[k] != u,
        decreases v.len() - i,
    {
        if v[i] == u {
            assert(v@[i as int] == u);
            return true;
        }
        i += 1;
    }
    false
}

/// True when `s` holds a carriage return, line feed or tab.
pub open spec fn has_layout_control(s: Seq<char>) -> bool {
    s.contains('\r') || s.contains('\n') || s.contains('\t')
}

pub fn has_layout_control_chars(v: &[char]) -> (r: bool)
    ensures
        r == has_layout_control(v@),
{
    contains_char(v, '\r') || contains_char(v, '\n') || contains_char(v, '\t')
}

/// `str::from_utf8`: the string whose UTF-8 encoding is `bytes`, if they are valid UTF-8.
#[verifier::external_body]
pub(crate) fn utf8_str(bytes: &[u8]) -> (r: Option<&str>)
    ensures
        r is Some <==> vstd::utf8::valid_utf8(bytes@),
        r matches Some(s) ==> s@ == vstd::utf8::decode_utf8(bytes@),
{
    std::str::from_utf8(bytes).ok()
}

/// Characters of the UTF-8 text `bytes`, if valid.
pub open spec fn utf8_chars(bytes: Seq<u8>) -> Option<Seq<char>> {
    if vstd::utf8::valid_utf8(bytes) {
        Some(vstd::utf8::decode_utf8(bytes))
    } else {
        None
    }
}

pub fn decode_utf8_chars(bytes: &[u8]) -> (r: Option<Vec<char>>)
    ensures
        match r {
            Some(v) => utf8_chars(bytes@) == Some(v@),
            None => utf8_chars(bytes@) is None,
        },
{
    match utf8_str(bytes) {
        Some(s) => Some(crate::unicode::chars_of(s)),
        None => None,
    }
}

/// UTF-8 bytes of a string slice.
pub fn str_bytes(s: &str) -> (r: Vec<u8>)
    ensures
        r@ == vstd::utf8::encode_utf8(s@),
{
    let b = s.as_bytes();
    copy_range(b, 0, b.len())
}

} // verus!
