//! Font family names: the family a Windows font registry label stands for, and the
//! concrete family Unity is asked for when a label names a font collection.
use vstd::prelude::*;
use crate::chars::copy_range;
use crate::unicode::{chars_of, string_of, trim, trim_chars};

verus! {

/// `s` without its leading `@` characters.
pub open spec fn strip_leading_at(s: Seq<char>) -> Seq<char>
    decreases s.len(),
{
    if s.len() > 0 && s[0] == '@' {
        strip_leading_at(s.drop_first())
    } else {
        s
    }
}

/// The last position below `n` where `" ("` starts, or -1.
pub open spec fn space_paren_below(s: Seq<char>, n: nat) -> int
    decreases n,
{
    if n == 0 {
        -1
    } else {
        let j = n - 1;
        if j + 1 < s.len() && s[j] == ' ' && s[j + 1] == '(' {
            j
        } else {
            space_paren_below(s, (n - 1) as nat)
        }
    }
}

/// The family a registry label names: trimmed, without the vertical-font `@`, and
/// without a trailing parenthesised format such as `(TrueType)`.
pub open spec fn registry_family(label: Seq<char>) -> Seq<char> {
    let l = trim(strip_leading_at(trim(label)));
    let k = space_paren_below(l, l.len());
    if l.len() > 0 && l.last() == ')' && k >= 0 {
        l.take(k)
    } else {
        l
    }
}

/// The first position at or after `i` where `" & "` starts, or -1.
pub open spec fn ampersand_from(s: Seq<char>, i: int) -> int
    decreases s.len() - i,
{
    if i < 0 || i + 3 > s.len() {
        -1
    } else if s[i] == ' ' && s[i + 1] == '&' && s[i + 2] == ' ' {
        i
    } else {
        ampersand_from(s, i + 1)
    }
}

/// The family Unity is asked for: the first family of a `" & "` collection label, trimmed.
pub open spec fn unity_family(family: Seq<char>) -> Seq<char> {
    let k = ampersand_from(family, 0);
    if k >= 0 {
        trim(family.take(k))
    } else {
        trim(family)
    }
}

proof fn lemma_space_paren_below_bounds(s: Seq<char>, n: nat)
    ensures
        -1 <= space_paren_below(s, n) < n,
        space_paren_below(s, n) >= 0 ==> space_paren_below(s, n) + 1 < s.len(),
    decreases n,
{
    if n > 0 {
        lemma_space_paren_below_bounds(s, (n - 1) as nat);
    }
}

proof fn lemma_ampersand_from_bounds(s: Seq<char>, i: int)
    ensures
        ampersand_from(s, i) == -1 || (i <= ampersand_from(s, i) && ampersand_from(s, i) + 3 <= s.len()),
    decreases s.len() - i,
{
    if !(i < 0 || i + 3 > s.len()) && !(s[i] == ' ' && s[i + 1] == '&' && s[i + 2] == ' ') {
        lemma_ampersand_from_bounds(s, i + 1);
    }
}

fn strip_leading_at_chars(s: &[char]) -> (r: Vec<char>)
    ensures
        r@ == strip_leading_at(s@),
{
    let mut i: usize = 0;
    assert(s@.skip(0) =~= s@);
    while i < s.len() && s[i] == '@'
        invariant
            i <= s.len(),
            strip_leading_at(s@) == strip_leading_at(s@.skip(i as int)),
        decreases s.len() - i,
    {
        assert(s@.skip(i as int).drop_first() =~= s@.skip(i + 1));
        i += 1;
    }
    let r = copy_range(s, i, s.len());
    assert(r@ =~= s@.skip(i as int));
    r
}

pub fn normalize_font_registry_label(label: &str) -> (r: String)
    ensures
        r@ == registry_family(label@),
{
    let a = chars_of(label);
    let b = trim_chars(&a);
    let c = strip_leading_at_chars(&b);
    let l = trim_chars(&c);
    let n = l.len();
    let mut j: usize = n;
    while j > 0 && !(j < n && l[j - 1] == ' ' && l[j] == '(')
        invariant
            j <= n,
            n == l@.len(),
            space_paren_below(l@, n as nat) == space_paren_below(l@, j as nat),
        decreases j,
    {
        j -= 1;
    }
    proof {
        lemma_space_paren_below_bounds(l@, n as nat);
    }
    if n > 0 && l[n - 1] == ')' && j > 0 {
        let t = copy_range(&l, 0, j - 1);
        assert(t@ =~= l@.take(j - 1));
        string_of(&t)
    } else {
        string_of(&l)
    }
}

pub fn unity_font_name(family: &str) -> (r: String)
    ensures
        r@ == unity_family(family@),
{
    let f = chars_of(family);
    let n = f.len();
    let mut i: usize = 0;
    while n - i >= 3 && !(f[i] == ' ' && f[i + 1] == '&' && f[i + 2] == ' ')
        invariant
            i <= n,
            n == f@.len(),
            ampersand_from(f@, 0) == ampersand_from(f@, i as int),
        decreases n - i,
    {
        i += 1;
    }
    let found = n - i >= 3;
    if found {
        let head = copy_range(&f, 0, i);
        assert(head@ =~= f@.take(i as int));
        let t = trim_chars(&head);
        string_of(&t)
    } else {
        let t = trim_chars(&f);
        string_of(&t)
    }
}

} // verus!
