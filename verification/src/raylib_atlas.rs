//! The fallback-font atlas of the native raylib draw hook: which code points a
//! replacement needs, whether the cached atlas covers them or a larger one is built,
//! which loaded glyphs are missing, and the one render thread all of it is bound to.
use vstd::prelude::*;
use crate::chars::{contains_byte, str_eq, utf8_chars, utf8_str};
use crate::raylib::MAX_FALLBACK_GLYPHS;
use crate::ordered::ascending_values_i32;
use crate::unicode::chars_of;

verus! {

/// A character's code point, as raylib takes it.
pub open spec fn code_of(c: char) -> i32 {
    (c as u32) as i32
}

/// The distinct code points a replacement draws (line breaks draw nothing).
pub open spec fn required_set(text: Seq<char>) -> Set<i32> {
    Set::new(|c: i32| exists|i: int| 0 <= i < text.len() && text[i] != '\n' && code_of(#[trigger] text[i]) == c)
}

proof fn lemma_push_contains(s: Seq<i32>, c: i32, x: i32)
    ensures
        s.push(c).contains(x) <==> (s.contains(x) || x == c),
{
    if s.contains(x) {
        let k = choose|k: int| 0 <= k < s.len() && s[k] == x;
        assert(s.push(c)[k] == x);
    }
    if x == c {
        assert(s.push(c)[s.len() as int] == x);
    }
    if s.push(c).contains(x) {
        let k = choose|k: int| 0 <= k < s.push(c).len() && s.push(c)[k] == x;
        if k < s.len() {
            assert(s[k] == x);
        }
    }
}

/// `d` holds exactly what `base` or `extra` holds.
pub open spec fn union_of(d: Seq<i32>, base: Seq<i32>, extra: Seq<i32>) -> bool {
    forall|x: i32| #[trigger] d.contains(x) <==> (base.contains(x) || extra.contains(x))
}

proof fn lemma_union_step(before: Seq<i32>, after: Seq<i32>, base: Seq<i32>, cps: Seq<i32>, j: int)
    requires
        0 <= j < cps.len(),
        union_of(before, base, cps.take(j)),
        after == before.push(cps[j]) || (after == before && before.contains(cps[j])),
    ensures
        union_of(after, base, cps.take(j + 1)),
{
    let c = cps[j];
    assert(cps.take(j + 1) =~= cps.take(j).push(c));
    assert forall|x: i32| #[trigger] after.contains(x) <==> (base.contains(x) || cps.take(j + 1).contains(x)) by {
        lemma_push_contains(cps.take(j), c, x);
        lemma_push_contains(before, c, x);
        assert(before.contains(x) <==> (base.contains(x) || cps.take(j).contains(x)));
    }
}

proof fn lemma_push_fresh_keeps_distinct(s: Seq<i32>, c: i32)
    requires
        s.no_duplicates(),
        !s.contains(c),
    ensures
        s.push(c).no_duplicates(),
{
    assert forall|i: int, j: int| 0 <= i < s.push(c).len() && 0 <= j < s.push(c).len() && i != j
        implies s.push(c)[i] != s.push(c)[j] by {
        if i < s.len() && j == s.len() {
            assert(s.contains(s[i]));
        }
        if j < s.len() && i == s.len() {
            assert(s.contains(s[j]));
        }
    }
}

fn contains_i32(v: &Vec<i32>, x: i32) -> (r: bool)
    ensures
        r == v@.contains(x),
{
    let mut i: usize = 0;
    while i < v.len()
        invariant
            i <= v.len(),
            forall|k: int| 0 <= k < i ==> v@[k] != x,
        decreases v.len() - i,
    {
        if v[i] == x {
            assert(v@[i as int] == x);
            return true;
        }
        i += 1;
    }
    false
}

/// The code points ascend strictly, as a `BTreeSet` hands them out.
pub open spec fn ascending_codepoints(s: Seq<i32>) -> bool {
    forall|i: int, j: int| 0 <= i < j < s.len() ==> s[i] < s[j]
}

/// The code points `text` needs, each once, in ascending order.
pub fn required_codepoints(text: &str) -> (r: Vec<i32>)
    ensures
        r@.to_set() == required_set(text@),
        r@.no_duplicates(),
        ascending_codepoints(r@),
{
    let chars = chars_of(text);
    let mut out: Vec<i32> = Vec::new();
    let mut i: usize = 0;
    while i < chars.len()
        invariant
            i <= chars.len(),
            chars@ == text@,
            forall|c: i32| out@.contains(c) <==> exists|k: int| 0 <= k < i && chars@[k] != '\n' && code_of(#[trigger] chars@[k]) == c,
        decreases chars.len() - i,
    {
        let ch = chars[i];
        let ghost before = out@;
        if ch != '\n' {
            let c = ch as u32 as i32;
            assert(c == code_of(chars@[i as int]));
            out.push(c);
        }
        proof {
            assert forall|c: i32| out@.contains(c) <==> exists|k: int| 0 <= k < i + 1 && chars@[k] != '\n'
                && code_of(#[trigger] chars@[k]) == c by {
                if out@ != before {
                    lemma_push_contains(before, code_of(chars@[i as int]), c);
                }
                if out@.contains(c) && !before.contains(c) {
                    assert(chars@[i as int] != '\n' && code_of(chars@[i as int]) == c);
                }
                if exists|k: int| 0 <= k < i + 1 && chars@[k] != '\n' && code_of(#[trigger] chars@[k]) == c {
                    let k = choose|k: int| 0 <= k < i + 1 && chars@[k] != '\n' && code_of(#[trigger] chars@[k]) == c;
                    if k < i {
                        assert(exists|j: int| 0 <= j < i && chars@[j] != '\n' && code_of(#[trigger] chars@[j]) == c);
                    } else if !before.contains(c) {
                        lemma_push_contains(before, code_of(chars@[i as int]), c);
                    }
                }
            }
        }
        i += 1;
    }
    proof {
        assert forall|c: i32| out@.to_set().contains(c) <==> required_set(text@).contains(c) by {
            if out@.contains(c) {
                let k = choose|k: int| 0 <= k < chars@.len() && chars@[k] != '\n' && code_of(#[trigger] chars@[k]) == c;
                assert(text@[k] == chars@[k]);
            }
            if required_set(text@).contains(c) {
                let k = choose|k: int| 0 <= k < text@.len() && text@[k] != '\n' && code_of(#[trigger] text@[k]) == c;
                assert(chars@[k] == text@[k]);
            }
        }
        assert(out@.to_set() =~= required_set(text@));
    }
    ascending_values_i32(&out)
}

/// The atlas currently built for one fallback font file.
#[derive(Clone, Debug, PartialEq, Eq)]
pub struct AtlasKey {
    pub font_path: String,
    pub codepoints: Vec<i32>,
}

/// What a draw does about the atlas.
#[derive(Clone, Debug, PartialEq, Eq)]
pub enum AtlasPlan {
    /// The cached atlas covers the text.
    UseActive,
    /// Build an atlas for these code points, in ascending order (the text's, plus those the
    /// cached atlas of the same font file held) and retire the cached one.
    Build(Vec<i32>),
    /// Too many code points: draw the original text.
    DrawOriginal,
}

/// The code points an atlas built now must hold.
pub open spec fn desired_set(active: Option<AtlasKey>, font_path: Seq<char>, required: Set<i32>) -> Set<i32> {
    match active {
        Some(a) => if a.font_path@ == font_path { required.union(a.codepoints@.to_set()) } else { required },
        None => required,
    }
}

pub open spec fn atlas_ready(active: Option<AtlasKey>, font_path: Seq<char>, required: Set<i32>) -> bool {
    active matches Some(a) && a.font_path@ == font_path && required.subset_of(a.codepoints@.to_set())
}

/// Plans the atlas for a draw that needs `required` (distinct code points) from `font_path`.
#[verifier::loop_isolation(false)]
pub fn plan_atlas(active: &Option<AtlasKey>, font_path: &str, required: &Vec<i32>) -> (r: AtlasPlan)
    requires
        required@.no_duplicates(),
    ensures
        atlas_ready(*active, font_path@, required@.to_set()) ==> r == AtlasPlan::UseActive,
        !atlas_ready(*active, font_path@, required@.to_set()) ==> match r {
            AtlasPlan::Build(d) => d@.to_set() == desired_set(*active, font_path@, required@.to_set())
                && d@.no_duplicates() && ascending_codepoints(d@) && d@.len() <= MAX_FALLBACK_GLYPHS,
            AtlasPlan::DrawOriginal => desired_set(*active, font_path@, required@.to_set()).len() > MAX_FALLBACK_GLYPHS,
            AtlasPlan::UseActive => false,
        },
{
    let same_font = match active {
        Some(a) => str_eq(a.font_path.as_str(), font_path),
        None => false,
    };
    let mut covered = same_font;
    let mut i: usize = 0;
    while i < required.len()
        invariant
            i <= required.len(),
            same_font ==> active is Some,
            covered == (same_font && forall|k: int| 0 <= k < i ==> (active->0).codepoints@.contains(#[trigger] required@[k])),
        decreases required.len() - i,
    {
        if covered {
            match active {
                Some(a) => {
                    if !contains_i32(&a.codepoints, required[i]) {
                        covered = false;
                    }
                },
                None => {},
            }
        }
        i += 1;
    }
    proof {
        if same_font {
            let a = active->0;
            if covered {
                assert(required@.to_set().subset_of(a.codepoints@.to_set()));
            } else {
                let k = choose|k: int| 0 <= k < required@.len() && !a.codepoints@.contains(#[trigger] required@[k]);
                assert(required@.to_set().contains(required@[k]));
                assert(!a.codepoints@.to_set().contains(required@[k]));
            }
        }
    }
    if covered {
        return AtlasPlan::UseActive;
    }
    let mut desired: Vec<i32> = Vec::new();
    let mut i: usize = 0;
    while i < required.len()
        invariant
            i <= required.len(),
            required@.no_duplicates(),
            desired@ == required@.take(i as int),
        decreases required.len() - i,
    {
        desired.push(required[i]);
        assert(desired@ =~= required@.take(i + 1));
        i += 1;
    }
    assert(required@.take(required@.len() as int) =~= required@);
    let ghost base = required@;
    if same_font {
        match active {
            Some(a) => {
                let mut j: usize = 0;
                assert(a.codepoints@.take(0) =~= Seq::<i32>::empty());
                while j < a.codepoints.len()
                    invariant
                        j <= a.codepoints.len(),
                        desired@.no_duplicates(),
                        union_of(desired@, base, a.codepoints@.take(j as int)),
                    decreases a.codepoints.len() - j,
                {
                    let c = a.codepoints[j];
                    let ghost before = desired@;
                    if !contains_i32(&desired, c) {
                        proof {
                            lemma_push_fresh_keeps_distinct(desired@, c);
                        }
                        desired.push(c);
                    }
                    proof {
                        lemma_union_step(before, desired@, base, a.codepoints@, j as int);
                    }
                    j += 1;
                }
                assert(a.codepoints@.take(a.codepoints@.len() as int) =~= a.codepoints@);
            },
            None => {},
        }
    }
    assert(desired@.to_set() =~= desired_set(*active, font_path@, required@.to_set()));
    proof {
        desired@.unique_seq_to_set();
    }
    let sorted = ascending_values_i32(&desired);
    proof {
        sorted@.unique_seq_to_set();
    }
    if sorted.len() > MAX_FALLBACK_GLYPHS {
        AtlasPlan::DrawOriginal
    } else {
        AtlasPlan::Build(sorted)
    }
}

/// A glyph as raylib loaded it: its code point and whether it has a non-empty image.
#[derive(Clone, Copy, Debug, PartialEq, Eq, Structural)]
pub struct LoadedGlyph {
    pub value: i32,
    pub has_image: bool,
}

/// A code point without a usable loaded glyph.
pub open spec fn glyph_missing(glyphs: Seq<LoadedGlyph>) -> spec_fn(i32) -> bool {
    |c: i32| !exists|k: int| 0 <= k < glyphs.len() && (#[trigger] glyphs[k]).value == c && glyphs[k].has_image
}

/// The required code points without a usable loaded glyph; all of them when raylib
/// loaded a different number of glyphs than was asked for.
pub open spec fn missing_glyphs(glyphs: Seq<LoadedGlyph>, required: Seq<i32>) -> Seq<i32> {
    if glyphs.len() != required.len() {
        required
    } else {
        required.filter(glyph_missing(glyphs))
    }
}

fn has_glyph(glyphs: &[LoadedGlyph], c: i32) -> (r: bool)
    ensures
        r == exists|k: int| 0 <= k < glyphs@.len() && (#[trigger] glyphs@[k]).value == c && glyphs@[k].has_image,
{
    let mut k: usize = 0;
    while k < glyphs.len()
        invariant
            k <= glyphs.len(),
            forall|j: int| 0 <= j < k ==> !((#[trigger] glyphs@[j]).value == c && glyphs@[j].has_image),
        decreases glyphs.len() - k,
    {
        if glyphs[k].value == c && glyphs[k].has_image {
            assert(glyphs@[k as int].value == c && glyphs@[k as int].has_image);
            return true;
        }
        k += 1;
    }
    false
}

pub fn missing_loaded_glyphs(glyphs: &[LoadedGlyph], required: &[i32]) -> (r: Vec<i32>)
    ensures
        r@ == missing_glyphs(glyphs@, required@),
{
    let mut out: Vec<i32> = Vec::new();
    if glyphs.len() != required.len() {
        let mut i: usize = 0;
        while i < required.len()
            invariant
                i <= required.len(),
                out@ == required@.take(i as int),
            decreases required.len() - i,
        {
            out.push(required[i]);
            assert(out@ =~= required@.take(i + 1));
            i += 1;
        }
        assert(required@.take(required@.len() as int) =~= required@);
        return out;
    }
    let ghost pred = glyph_missing(glyphs@);
    let mut i: usize = 0;
    while i < required.len()
        invariant
            i <= required.len(),
            out@ == required@.take(i as int).filter(pred),
            pred == glyph_missing(glyphs@),
        decreases required.len() - i,
    {
        let c = required[i];
        let found = has_glyph(glyphs, c);
        assert(pred(c) == !found);
        proof {
            assert(required@.take(i + 1) =~= required@.take(i as int).push(c));
            required@.take(i as int).lemma_filter_push(c, pred);
        }
        if !found {
            out.push(c);
        }
        i += 1;
    }
    assert(required@.take(required@.len() as int) =~= required@);
    out
}

/// Whether a font's fields look like a raylib 5.5 `Font`.
pub fn font_abi_plausible(base_size: i32, glyph_count: i32, texture_id: u32, recs_present: bool, glyphs_present: bool) -> (r: bool)
    ensures
        r == (1 <= base_size <= 4096 && glyph_count > 0 && texture_id != 0 && recs_present && glyphs_present),
{
    1 <= base_size && base_size <= 4096 && glyph_count > 0 && texture_id != 0 && recs_present && glyphs_present
}

/// The thread that first drew owns the atlas; other threads draw the original.
#[derive(Clone, Copy, Debug, PartialEq, Eq, Structural)]
pub struct RenderThreadBinding {
    pub thread: Option<u32>,
}

impl RenderThreadBinding {
    pub fn bind(&mut self, current: u32) -> (r: bool)
        ensures
            old(self).thread is None ==> r && final(self).thread == Some(current),
            old(self).thread matches Some(t) ==> r == (t == current) && *final(self) == *old(self),
    {
        match self.thread {
            Some(t) => t == current,
            None => {
                self.thread = Some(current);
                true
            },
        }
    }
}

/// What a draw does once the host has decided a replacement for the text.
#[derive(Clone, Debug, PartialEq, Eq)]
pub enum DrawPlan {
    /// Draw the host's text with the host's font.
    Original,
    /// Draw the replacement with the host's font: it needs no glyph (only line breaks).
    ReplacementInHostFont,
    /// Draw the replacement with the cached atlas.
    ReplacementInAtlas,
    /// Text replacement was switched off: retire the cached atlas and draw the original.
    RetireAndDrawOriginal,
    /// Build an atlas for `codepoints` and install it in place of the cached one. Then, when
    /// `draw`, draw the replacement with it; otherwise retire it again unless `keep`, and draw
    /// the original. When the build fails, the cache stays and the original is drawn.
    BuildAtlas { codepoints: Vec<i32>, keep: bool, draw: bool },
}

/// The plan for a draw whose decided replacement is `replacement` (the bytes raylib would
/// draw), given whether the host font looks like a raylib font, the configured fallback font
/// file, whether this is the render thread the atlas is bound to, the cached atlas, and
/// whether text replacement is active. The checks come in the hook's order.
pub fn plan_draw(
    replacement: &[u8],
    font_plausible: bool,
    fallback_font: Option<&str>,
    bound: bool,
    active: &Option<AtlasKey>,
    text_replace: bool,
) -> (r: DrawPlan)
    ensures
        !font_plausible || utf8_chars(replacement@) is None ==> r == DrawPlan::Original,
        font_plausible && utf8_chars(replacement@) is Some ==> ({
            let req = required_set(utf8_chars(replacement@)->0);
            let nul = replacement@.contains(0u8);
            if req.is_empty() {
                r == if nul { DrawPlan::Original } else { DrawPlan::ReplacementInHostFont }
            } else if fallback_font is None || !bound {
                r == DrawPlan::Original
            } else if atlas_ready(*active, fallback_font->0@, req) {
                r == if !text_replace {
                    DrawPlan::RetireAndDrawOriginal
                } else if nul {
                    DrawPlan::Original
                } else {
                    DrawPlan::ReplacementInAtlas
                }
            } else if desired_set(*active, fallback_font->0@, req).len() > MAX_FALLBACK_GLYPHS {
                r == DrawPlan::Original
            } else {
                r matches DrawPlan::BuildAtlas { codepoints, keep, draw } && codepoints@.to_set() == desired_set(
                    *active,
                    fallback_font->0@,
                    req,
                ) && ascending_codepoints(codepoints@) && keep == text_replace && draw == (text_replace && !nul)
            }
        }),
{
    if !font_plausible {
        return DrawPlan::Original;
    }
    let text = match utf8_str(replacement) {
        Some(t) => t,
        None => return DrawPlan::Original,
    };
    let nul = contains_byte(replacement, 0);
    let required = required_codepoints(text);
    if required.len() == 0 {
        assert(required@.to_set() =~= Set::<i32>::empty());
        return if nul { DrawPlan::Original } else { DrawPlan::ReplacementInHostFont };
    }
    assert(required@.to_set().contains(required@[0]));
    let path = match fallback_font {
        Some(p) => p,
        None => return DrawPlan::Original,
    };
    if !bound {
        return DrawPlan::Original;
    }
    match plan_atlas(active, path, &required) {
        AtlasPlan::UseActive => {
            if !text_replace {
                DrawPlan::RetireAndDrawOriginal
            } else if nul {
                DrawPlan::Original
            } else {
                DrawPlan::ReplacementInAtlas
            }
        },
        AtlasPlan::DrawOriginal => DrawPlan::Original,
        AtlasPlan::Build(d) => {
            proof {
                d@.unique_seq_to_set();
            }
            DrawPlan::BuildAtlas { codepoints: d, keep: text_replace, draw: text_replace && !nul }
        },
    }
}

} // verus!
