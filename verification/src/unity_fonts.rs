//! Font resources for Unity font substitution: the key one family's resources are kept
//! under, and the characters a TextMesh Pro font asset still has to add.
use vstd::prelude::*;
use crate::unicode::{chars_of, decode_utf16, string_of, trim, trim_chars, utf16_decode};

verus! {

/// `c` with ASCII upper case letters lowered.
pub open spec fn ascii_lower(c: char) -> char {
    if 'A' <= c <= 'Z' { ((c as u32) + 32) as char } else { c }
}

/// The key of a family's font resources: the family trimmed, ASCII letters lowered.
pub open spec fn resource_key(family: Seq<char>) -> Seq<char> {
    trim(family).map_values(|c: char| ascii_lower(c))
}

fn ascii_lower_char(c: char) -> (r: char)
    ensures
        r == ascii_lower(c),
{
    if 'A' <= c && c <= 'Z' {
        let v = (c as u8) + 32;
        v as char
    } else {
        c
    }
}

/// The key the font resources of `family` are kept under: two spellings of a family that
/// differ only in surrounding whitespace or ASCII case share one resource.
pub fn font_resource_key(family: &str) -> (r: String)
    ensures
        r@ == resource_key(family@),
{
    let chars = chars_of(family);
    let trimmed = trim_chars(chars.as_slice());
    let mut out: Vec<char> = Vec::new();
    let mut k: usize = 0;
    while k < trimmed.len()
        invariant
            k <= trimmed@.len(),
            trimmed@ == trim(family@),
            out@ == trimmed@.take(k as int).map_values(|c: char| ascii_lower(c)),
        decreases trimmed.len() - k,
    {
        out.push(ascii_lower_char(trimmed[k]));
        assert(out@ =~= trimmed@.take(k + 1).map_values(|c: char| ascii_lower(c)));
        k += 1;
    }
    assert(trimmed@.take(k as int) =~= trimmed@);
    string_of(out.as_slice())
}

/// The characters ascend strictly.
pub open spec fn ascending_chars(s: Seq<char>) -> bool {
    forall|i: int, j: int| 0 <= i < j < s.len() ==> s[i] < s[j]
}

/// The characters of `required` (UTF-16) that the font asset does not have yet, each once
/// and in ascending order; `None` when `required` is not valid UTF-16.
pub fn missing_tmp_glyphs(required: &[u16], known: &Vec<char>) -> (r: Option<Vec<char>>)
    ensures
        match r {
            None => utf16_decode(required@) is None,
            Some(v) => utf16_decode(required@) matches Some(text) && ascending_chars(v@) && forall|c: char|
                v@.contains(c) <==> (text.contains(c) && !known@.contains(c)),
        },
{
    let text = match decode_utf16(required) {
        Some(t) => t,
        None => return None,
    };
    let mut out: Vec<char> = Vec::new();
    let mut i: usize = 0;
    while i < text.len()
        invariant
            i <= text@.len(),
            ascending_chars(out@),
            forall|c: char| out@.contains(c) <==> (text@.subrange(0, i as int).contains(c) && !known@.contains(c)),
        decreases text.len() - i,
    {
        let c = text[i];
        let mut known_c = false;
        let mut k: usize = 0;
        while k < known.len()
            invariant
                k <= known@.len(),
                known_c == exists|j: int| 0 <= j < k && known@[j] == c,
            decreases known.len() - k,
        {
            if known[k] == c {
                known_c = true;
            }
            k += 1;
        }
        let ghost before = out@;
        if !known_c {
            let mut p: usize = 0;
            while p < out.len() && out[p] < c
                invariant
                    p <= out@.len(),
                    forall|q: int| 0 <= q < p ==> out@[q] < c,
                decreases out.len() - p,
            {
                p += 1;
            }
            if p == out.len() || out[p] != c {
                out.insert(p, c);
                proof {
                    if (p as int) < before.len() {
                        assert(before[p as int] >= c);
                        assert(before[p as int] != c);
                    }
                    assert forall|a: int, b: int| 0 <= a < b < out@.len() implies out@[a] < out@[b] by {
                        if b < p {
                        } else if b == p {
                        } else if a < p {
                            assert(before[p as int] > c);
                        } else if a == p {
                            assert(before[p as int] > c);
                        }
                    }
                    assert forall|y: char| out@.contains(y) <==> before.contains(y) || y == c by {
                        if out@.contains(y) {
                            let w = choose|w: int| 0 <= w < out@.len() && out@[w] == y;
                            if w < p {
                                assert(before[w] == y);
                            } else if w > p {
                                assert(before[w - 1] == y);
                            }
                        }
                        if before.contains(y) {
                            let w = choose|w: int| 0 <= w < before.len() && before[w] == y;
                            if w < p {
                                assert(out@[w] == y);
                            } else {
                                assert(out@[w + 1] == y);
                            }
                        }
                        if y == c {
                            assert(out@[p as int] == c);
                        }
                    }
                }
            } else {
                assert(before[p as int] == c);
            }
        }
        proof {
            let s = text@.subrange(0, i + 1);
            assert forall|y: char| s.contains(y) <==> text@.subrange(0, i as int).contains(y) || y == c by {
                if s.contains(y) {
                    let w = choose|w: int| 0 <= w < s.len() && s[w] == y;
                    if w < i {
                        assert(text@.subrange(0, i as int)[w] == y);
                    }
                }
                if text@.subrange(0, i as int).contains(y) {
                    let w = choose|w: int| 0 <= w < i && text@.subrange(0, i as int)[w] == y;
                    assert(s[w] == y);
                }
                if y == c {
                    assert(s[i as int] == c);
                }
            }
            assert(known_c == known@.contains(c));
            assert forall|y: char| out@.contains(y) <==> (s.contains(y) && !known@.contains(y)) by {
                assert(before.contains(y) <==> (text@.subrange(0, i as int).contains(y) && !known@.contains(y)));
            }
        }
        i += 1;
    }
    assert(text@.subrange(0, text@.len() as int) =~= text@);
    Some(out)
}

} // verus!
