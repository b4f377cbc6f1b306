//! Which IL2CPP metadata the Unity Standard UI adapter needs, and how it is chosen:
//! the text classes of TextMeshPro and uGUI, and the font classes and methods for
//! font substitution. The runtime is queried by the caller; this module decides from
//! the answers which targets and factories are used, and refuses a runtime that lacks
//! one it needs.
use vstd::prelude::*;
use crate::chars::str_eq;

verus! {

pub const TMP_NAMESPACE: &'static str = "TMPro";
pub const TMP_CLASS: &'static str = "TMP_Text";
pub const TMP_TEXT_FIELD: &'static str = "m_text";
pub const UGUI_NAMESPACE: &'static str = "UnityEngine.UI";
pub const UGUI_CLASS: &'static str = "Text";
pub const UGUI_TEXT_FIELD: &'static str = "m_Text";

#[derive(Clone, Copy, Debug, PartialEq, Eq, Structural)]
pub enum StandardUiKind {
    TextMeshPro,
    UGui,
}

#[derive(Clone, Copy, Debug, PartialEq, Eq, Structural)]
pub enum MetadataError {
    RuntimeMissing,
    StandardUiMissing,
    FontSubstitutionMissing,
    ThreadAttachFailed,
    LivenessFailed,
}

/// What the runtime answered, image by image, when asked for a class.
#[derive(Clone, Debug, PartialEq, Eq)]
pub struct ClassLookup {
    pub per_image: Vec<Option<usize>>,
}

/// The class from the first image that has it.
pub open spec fn first_found(s: Seq<Option<usize>>) -> Option<usize>
    decreases s.len(),
{
    if s.len() == 0 {
        None
    } else if s[0] is Some {
        s[0]
    } else {
        first_found(s.drop_first())
    }
}

pub fn class_across_images(lookup: &ClassLookup) -> (r: Option<usize>)
    ensures
        r == first_found(lookup.per_image@),
{
    let s = &lookup.per_image;
    let mut i: usize = 0;
    assert(s@.skip(0) =~= s@);
    while i < s.len()
        invariant
            i <= s.len(),
            s@ == lookup.per_image@,
            first_found(s@) == first_found(s@.skip(i as int)),
        decreases s.len() - i,
    {
        if s[i].is_some() {
            assert(s@.skip(i as int).len() > 0 && s@.skip(i as int)[0] == s@[i as int]);
            assert(first_found(s@.skip(i as int)) == s@[i as int]);
            return s[i];
        }
        assert(s@.skip(i as int).drop_first() =~= s@.skip(i + 1));
        i += 1;
    }
    None
}

/// A text component class: where its text lives and how it is set.
#[derive(Clone, Copy, Debug, PartialEq, Eq, Structural)]
pub struct TextTarget {
    pub kind: StandardUiKind,
    pub class: usize,
    pub text_field: usize,
    pub text_setter: Option<usize>,
}

/// The answers about one text component class: the class, and within it the text field
/// and the one-argument `set_text` method.
#[derive(Clone, Debug, PartialEq, Eq)]
pub struct TextClassLookup {
    pub class: ClassLookup,
    pub text_field: Option<usize>,
    pub text_setter: Option<usize>,
}

/// The target for a text class, if the runtime has it, its text field, and (when text is
/// written back) its setter.
pub open spec fn text_target_for(kind: StandardUiKind, l: TextClassLookup, require_writeback: bool) -> Option<TextTarget> {
    match first_found(l.class.per_image@) {
        None => None,
        Some(class) => if require_writeback && l.text_setter is None {
            None
        } else {
            match l.text_field {
                Some(f) => Some(TextTarget { kind, class, text_field: f, text_setter: l.text_setter }),
                None => None,
            }
        },
    }
}

pub fn locate_text_target(kind: StandardUiKind, lookup: &TextClassLookup, require_writeback: bool) -> (r: Option<TextTarget>)
    ensures
        r == text_target_for(kind, *lookup, require_writeback),
{
    let class = match class_across_images(&lookup.class) {
        Some(c) => c,
        None => return None,
    };
    if require_writeback && lookup.text_setter.is_none() {
        return None;
    }
    match lookup.text_field {
        Some(f) => Some(TextTarget { kind, class, text_field: f, text_setter: lookup.text_setter }),
        None => None,
    }
}

/// The Standard UI targets, TextMeshPro first; at least one must be present.
pub open spec fn standard_ui_targets(tmp: TextClassLookup, ugui: TextClassLookup, require_writeback: bool) -> Result<Seq<TextTarget>, MetadataError> {
    let t = text_target_for(StandardUiKind::TextMeshPro, tmp, require_writeback);
    let u = text_target_for(StandardUiKind::UGui, ugui, require_writeback);
    let s = (if t is Some { seq![t->0] } else { Seq::empty() }) + (if u is Some { seq![u->0] } else { Seq::empty() });
    if s.len() == 0 { Err(MetadataError::StandardUiMissing) } else { Ok(s) }
}

pub fn locate_standard_ui(tmp: &TextClassLookup, ugui: &TextClassLookup, require_writeback: bool) -> (r: Result<Vec<TextTarget>, MetadataError>)
    ensures
        match r {
            Ok(v) => standard_ui_targets(*tmp, *ugui, require_writeback) == Ok::<Seq<TextTarget>, MetadataError>(v@),
            Err(e) => standard_ui_targets(*tmp, *ugui, require_writeback) == Err::<Seq<TextTarget>, MetadataError>(e),
        },
{
    let mut targets: Vec<TextTarget> = Vec::new();
    let t = locate_text_target(StandardUiKind::TextMeshPro, tmp, require_writeback);
    if let Some(x) = t {
        targets.push(x);
    }
    let u = locate_text_target(StandardUiKind::UGui, ugui, require_writeback);
    if let Some(y) = u {
        targets.push(y);
    }
    let ghost s = (if t is Some { seq![t->0] } else { Seq::empty() }) + (if u is Some { seq![u->0] } else { Seq::empty() });
    assert(targets@ =~= s);
    if targets.len() == 0 {
        return Err(MetadataError::StandardUiMissing);
    }
    Ok(targets)
}

/// Whether the targets include a kind.
pub open spec fn has_kind(targets: Seq<TextTarget>, kind: StandardUiKind) -> bool {
    exists|i: int| 0 <= i < targets.len() && (#[trigger] targets[i]).kind == kind
}

fn has_kind_exec(targets: &[TextTarget], kind: StandardUiKind) -> (r: bool)
    ensures
        r == has_kind(targets@, kind),
{
    let mut i: usize = 0;
    while i < targets.len()
        invariant
            i <= targets.len(),
            forall|k: int| 0 <= k < i ==> (#[trigger] targets@[k]).kind != kind,
        decreases targets.len() - i,
    {
        if targets[i].kind == kind {
            assert(targets@[i as int].kind == kind);
            return true;
        }
        i += 1;
    }
    false
}

/// One expected parameter of a method: its class and whether it is passed by reference.
#[derive(Clone, Copy, Debug, PartialEq, Eq, Structural)]
pub struct MethodParam {
    pub class: usize,
    pub by_ref: bool,
}

/// A method of a class as the runtime lists it: its handle, whether its name is the one
/// looked for, and its parameters (`None` for a parameter whose type did not resolve).
#[derive(Clone, Debug, PartialEq, Eq)]
pub struct MethodCandidate {
    pub method: usize,
    pub name_matches: bool,
    pub params: Vec<Option<MethodParam>>,
}

/// A candidate whose name matches and whose parameters are exactly `expected`.
pub open spec fn signature_matches(c: MethodCandidate, expected: Seq<MethodParam>) -> bool {
    c.name_matches && c.params@.len() == expected.len()
        && forall|i: int| 0 <= i < expected.len() ==> c.params@[i] == Some(#[trigger] expected[i])
}

/// The first listed method with the expected name and parameters.
pub open spec fn exact_method_from(cs: Seq<MethodCandidate>, expected: Seq<MethodParam>, i: int) -> Option<usize>
    decreases cs.len() - i,
{
    if i < 0 || i >= cs.len() {
        None
    } else if signature_matches(cs[i], expected) {
        Some(cs[i].method)
    } else {
        exact_method_from(cs, expected, i + 1)
    }
}

/// The candidate `c` has the looked-for name and exactly the parameters `ps`: as many, each
/// resolved to the expected one.
pub open spec fn has_exact_params(c: MethodCandidate, ps: Seq<MethodParam>) -> bool {
    &&& c.name_matches
    &&& c.params@.len() == ps.len()
    &&& forall|i: int| 0 <= i < ps.len() ==> #[trigger] c.params@[i] == Some(ps[i])
}

proof fn lemma_exact_method_from(cs: Seq<MethodCandidate>, ps: Seq<MethodParam>, i: int)
    requires
        0 <= i,
    ensures
        exact_method_from(cs, ps, i) matches Some(m) ==> exists|k: int|
            i <= k < cs.len() && #[trigger] cs[k].method == m && has_exact_params(cs[k], ps) && forall|j: int|
                i <= j < k ==> !has_exact_params(#[trigger] cs[j], ps),
        exact_method_from(cs, ps, i) is None ==> forall|k: int| i <= k < cs.len() ==> !has_exact_params(#[trigger] cs[k], ps),
    decreases cs.len() - i,
{
    if i < cs.len() {
        lemma_exact_method_from(cs, ps, i + 1);
        if !signature_matches(cs[i], ps) {
            if let Some(m) = exact_method_from(cs, ps, i + 1) {
                let k = choose|k: int| i + 1 <= k < cs.len() && #[trigger] cs[k].method == m && has_exact_params(cs[k], ps)
                    && forall|j: int| i + 1 <= j < k ==> !has_exact_params(#[trigger] cs[j], ps);
                assert(cs[k].method == m);
            }
        } else {
            assert(cs[i].method == cs[i].method);
        }
    }
}

/// `exact_method` picks a method only for a candidate whose parameter list is exactly the
/// expected one, the same length and each parameter the expected class: the first such
/// candidate in the runtime's order. When no candidate has exactly those parameters, it picks
/// none. A constructor with fewer or more parameters is never taken for another overload.
pub proof fn law_exact_method_matches_the_whole_signature(cs: Seq<MethodCandidate>, ps: Seq<MethodParam>)
    ensures
        exact_method_from(cs, ps, 0) matches Some(m) ==> exists|k: int|
            0 <= k < cs.len() && #[trigger] cs[k].method == m && cs[k].name_matches && cs[k].params@.len() == ps.len()
                && (forall|i: int| 0 <= i < ps.len() ==> #[trigger] cs[k].params@[i] == Some(ps[i])) && forall|j: int|
                0 <= j < k ==> !has_exact_params(#[trigger] cs[j], ps),
        exact_method_from(cs, ps, 0) is None ==> forall|k: int|
            0 <= k < cs.len() ==> !(#[trigger] cs[k].name_matches && cs[k].params@.len() == ps.len() && forall|i: int|
                0 <= i < ps.len() ==> #[trigger] cs[k].params@[i] == Some(ps[i])),
{
    lemma_exact_method_from(cs, ps, 0);
}

fn signature_matches_exec(c: &MethodCandidate, expected: &[MethodParam]) -> (r: bool)
    ensures
        r == signature_matches(*c, expected@),
{
    if !c.name_matches || c.params.len() != expected.len() {
        return false;
    }
    let mut i: usize = 0;
    while i < expected.len()
        invariant
            i <= expected.len(),
            c.params@.len() == expected@.len(),
            forall|k: int| 0 <= k < i ==> c.params@[k] == Some(#[trigger] expected@[k]),
        decreases expected.len() - i,
    {
        match c.params[i] {
            Some(p) => {
                if p != expected[i] {
                    return false;
                }
            },
            None => {
                assert(c.params@[i as int] != Some(expected@[i as int]));
                return false;
            },
        }
        i += 1;
    }
    true
}

/// The method among `candidates` (in the runtime's order) with the expected signature.
pub fn exact_method(candidates: &[MethodCandidate], expected: &[MethodParam]) -> (r: Option<usize>)
    ensures
        r == exact_method_from(candidates@, expected@, 0),
{
    let mut i: usize = 0;
    while i < candidates.len()
        invariant
            i <= candidates.len(),
            exact_method_from(candidates@, expected@, 0) == exact_method_from(candidates@, expected@, i as int),
        decreases candidates.len() - i,
    {
        if signature_matches_exec(&candidates[i], expected) {
            return Some(candidates[i].method);
        }
        i += 1;
    }
    None
}

/// How a Unity `Font` is created from a font file.
#[derive(Clone, Copy, Debug, PartialEq, Eq, Structural)]
pub enum FontFactory {
    StringConstructor(usize),
    InternalCreateFont { default_constructor: usize, factory: usize },
}

/// How a TextMeshPro font asset is created.
#[derive(Clone, Copy, Debug, PartialEq, Eq, Structural)]
pub enum TmpFontAssetFactory {
    FilePath(usize),
    FamilyStyle(usize),
    UnityFont(usize),
}

#[derive(Clone, Copy, Debug, PartialEq, Eq, Structural)]
pub struct TmpFontFactory {
    pub class: usize,
    pub create_font_asset: TmpFontAssetFactory,
    pub try_add_characters: usize,
}

/// The font accessors of one text target.
#[derive(Clone, Copy, Debug, PartialEq, Eq, Structural)]
pub struct FontTarget {
    pub kind: StandardUiKind,
    pub font_getter: usize,
    pub font_setter: usize,
    pub shared_material_getter: Option<usize>,
    pub shared_material_setter: Option<usize>,
}

/// The answers about one text target's font accessors: `get_font()`, `set_font` taking
/// the target's font class, and for TextMeshPro the shared material accessors.
#[derive(Clone, Copy, Debug, PartialEq, Eq, Structural)]
pub struct TargetFontLookup {
    pub get_font: Option<usize>,
    pub set_font: Option<usize>,
    pub get_shared_material: Option<usize>,
    pub set_shared_material: Option<usize>,
}

/// The answers font substitution is chosen from.
#[derive(Clone, Debug, PartialEq, Eq)]
pub struct FontLookups {
    pub string_class: ClassLookup,
    pub boolean_class: ClassLookup,
    pub int32_class: ClassLookup,
    pub font_class: ClassLookup,
    pub material_class: ClassLookup,
    pub tmp_font_asset_class: ClassLookup,
    pub glyph_render_mode_class: ClassLookup,
    /// `Font(string)`.
    pub font_string_ctor: Option<usize>,
    /// `Font()`.
    pub font_default_ctor: Option<usize>,
    /// `Font.Internal_CreateFont(Font, string)`.
    pub font_internal_create: Option<usize>,
    /// `TMP_FontAsset.CreateFontAsset(string family, string style, int size)`.
    pub tmp_create_family_style: Option<usize>,
    /// `TMP_FontAsset.CreateFontAsset(string path, int, int, int, GlyphRenderMode, int, int)`.
    pub tmp_create_file_path: Option<usize>,
    /// `TMP_FontAsset.CreateFontAsset(Font)`.
    pub tmp_create_unity_font: Option<usize>,
    /// `TMP_FontAsset.TryAddCharacters(string, out string, bool)`.
    pub tmp_try_add_characters: Option<usize>,
    /// One entry per text target, in the targets' order.
    pub targets: Vec<TargetFontLookup>,
}

#[derive(Clone, Debug, PartialEq, Eq)]
pub struct FontMetadata {
    pub font_class: usize,
    pub font_factory: FontFactory,
    pub targets: Vec<FontTarget>,
    pub tmp_factory: Option<TmpFontFactory>,
}

/// The font factory: the string constructor when the runtime has it, else a default
/// constructor together with `Internal_CreateFont`.
pub open spec fn font_factory_of(l: FontLookups) -> Option<FontFactory> {
    match l.font_string_ctor {
        Some(m) => Some(FontFactory::StringConstructor(m)),
        None => match (l.font_default_ctor, l.font_internal_create) {
            (Some(d), Some(f)) => Some(FontFactory::InternalCreateFont { default_constructor: d, factory: f }),
            _ => None,
        },
    }
}

/// The TextMeshPro asset factory: by family and style first, then by file path (only
/// where the runtime has `GlyphRenderMode`), then from a Unity font.
pub open spec fn tmp_asset_factory_of(l: FontLookups) -> Option<TmpFontAssetFactory> {
    match l.tmp_create_family_style {
        Some(m) => Some(TmpFontAssetFactory::FamilyStyle(m)),
        None => match (first_found(l.glyph_render_mode_class.per_image@), l.tmp_create_file_path) {
            (Some(_), Some(m)) => Some(TmpFontAssetFactory::FilePath(m)),
            _ => match l.tmp_create_unity_font {
                Some(m) => Some(TmpFontAssetFactory::UnityFont(m)),
                None => None,
            },
        },
    }
}

/// The font target for text target `t` with lookups `f`, or `None` when one it needs is missing.
pub open spec fn font_target_of(t: TextTarget, f: TargetFontLookup, tmp_asset: Option<usize>) -> Option<FontTarget> {
    if t.kind == StandardUiKind::TextMeshPro && tmp_asset is None {
        None
    } else if f.get_font is None || f.set_font is None {
        None
    } else if t.kind == StandardUiKind::TextMeshPro {
        if f.get_shared_material is None || f.set_shared_material is None {
            None
        } else {
            Some(FontTarget {
                kind: t.kind,
                font_getter: f.get_font->0,
                font_setter: f.set_font->0,
                shared_material_getter: f.get_shared_material,
                shared_material_setter: f.set_shared_material,
            })
        }
    } else {
        Some(FontTarget {
            kind: t.kind,
            font_getter: f.get_font->0,
            font_setter: f.set_font->0,
            shared_material_getter: None,
            shared_material_setter: None,
        })
    }
}

/// Every target has its font accessors.
pub open spec fn all_font_targets(targets: Seq<TextTarget>, l: FontLookups) -> bool {
    targets.len() <= l.targets@.len() && forall|i: int| 0 <= i < targets.len()
        ==> (#[trigger] font_target_of(targets[i], l.targets@[i], first_found(l.tmp_font_asset_class.per_image@))) is Some
}

/// The font metadata chosen from the lookups for the given targets; `None` when the
/// runtime lacks something font substitution needs.
pub open spec fn font_metadata_for(l: FontLookups, targets: Seq<TextTarget>) -> Option<(usize, FontFactory, Option<TmpFontFactory>)> {
    let tmp_asset = first_found(l.tmp_font_asset_class.per_image@);
    if first_found(l.string_class.per_image@) is None || first_found(l.boolean_class.per_image@) is None
        || first_found(l.int32_class.per_image@) is None || first_found(l.font_class.per_image@) is None
        || first_found(l.material_class.per_image@) is None || font_factory_of(l) is None {
        None
    } else if has_kind(targets, StandardUiKind::TextMeshPro) && (tmp_asset is None
        || tmp_asset_factory_of(l) is None || l.tmp_try_add_characters is None) {
        None
    } else if !all_font_targets(targets, l) {
        None
    } else {
        Some((
            first_found(l.font_class.per_image@)->0,
            font_factory_of(l)->0,
            if has_kind(targets, StandardUiKind::TextMeshPro) {
                Some(TmpFontFactory {
                    class: tmp_asset->0,
                    create_font_asset: tmp_asset_factory_of(l)->0,
                    try_add_characters: l.tmp_try_add_characters->0,
                })
            } else {
                None
            },
        ))
    }
}

fn font_target_exec(t: TextTarget, f: TargetFontLookup, tmp_asset: Option<usize>) -> (r: Option<FontTarget>)
    ensures
        r == font_target_of(t, f, tmp_asset),
{
    if t.kind == StandardUiKind::TextMeshPro && tmp_asset.is_none() {
        return None;
    }
    let (g, s) = match (f.get_font, f.set_font) {
        (Some(g), Some(s)) => (g, s),
        _ => return None,
    };
    if t.kind == StandardUiKind::TextMeshPro {
        if f.get_shared_material.is_none() || f.set_shared_material.is_none() {
            return None;
        }
        Some(FontTarget {
            kind: t.kind,
            font_getter: g,
            font_setter: s,
            shared_material_getter: f.get_shared_material,
            shared_material_setter: f.set_shared_material,
        })
    } else {
        Some(FontTarget { kind: t.kind, font_getter: g, font_setter: s, shared_material_getter: None, shared_material_setter: None })
    }
}

/// Chooses the font classes, factories and per-target accessors font substitution uses.
pub fn locate_font_metadata(lookups: &FontLookups, targets: &[TextTarget]) -> (r: Result<FontMetadata, MetadataError>)
    ensures
        match r {
            Ok(m) => font_metadata_for(*lookups, targets@) == Some((m.font_class, m.font_factory, m.tmp_factory))
                && m.targets@.len() == targets@.len()
                && forall|i: int| 0 <= i < targets@.len() ==> Some(#[trigger] m.targets@[i])
                    == font_target_of(targets@[i], lookups.targets@[i], first_found(lookups.tmp_font_asset_class.per_image@)),
            Err(e) => font_metadata_for(*lookups, targets@) is None && e == MetadataError::FontSubstitutionMissing,
        },
{
    let string_class = class_across_images(&lookups.string_class);
    let boolean_class = class_across_images(&lookups.boolean_class);
    let int32_class = class_across_images(&lookups.int32_class);
    let font_class = class_across_images(&lookups.font_class);
    let material_class = class_across_images(&lookups.material_class);
    if string_class.is_none() || boolean_class.is_none() || int32_class.is_none() || material_class.is_none() {
        return Err(MetadataError::FontSubstitutionMissing);
    }
    let font_class = match font_class {
        Some(c) => c,
        None => return Err(MetadataError::FontSubstitutionMissing),
    };
    let font_factory = match lookups.font_string_ctor {
        Some(m) => FontFactory::StringConstructor(m),
        None => match (lookups.font_default_ctor, lookups.font_internal_create) {
            (Some(d), Some(f)) => FontFactory::InternalCreateFont { default_constructor: d, factory: f },
            _ => return Err(MetadataError::FontSubstitutionMissing),
        },
    };
    let tmp_asset = class_across_images(&lookups.tmp_font_asset_class);
    let has_tmp = has_kind_exec(targets, StandardUiKind::TextMeshPro);
    let tmp_factory = if has_tmp {
        let class = match tmp_asset {
            Some(c) => c,
            None => return Err(MetadataError::FontSubstitutionMissing),
        };
        let glyph_render_mode = class_across_images(&lookups.glyph_render_mode_class);
        let create = match lookups.tmp_create_family_style {
            Some(m) => TmpFontAssetFactory::FamilyStyle(m),
            None => match (glyph_render_mode, lookups.tmp_create_file_path) {
                (Some(_), Some(m)) => TmpFontAssetFactory::FilePath(m),
                _ => match lookups.tmp_create_unity_font {
                    Some(m) => TmpFontAssetFactory::UnityFont(m),
                    None => return Err(MetadataError::FontSubstitutionMissing),
                },
            },
        };
        let try_add = match lookups.tmp_try_add_characters {
            Some(m) => m,
            None => return Err(MetadataError::FontSubstitutionMissing),
        };
        Some(TmpFontFactory { class, create_font_asset: create, try_add_characters: try_add })
    } else {
        None
    };
    if targets.len() > lookups.targets.len() {
        return Err(MetadataError::FontSubstitutionMissing);
    }
    let mut out: Vec<FontTarget> = Vec::new();
    let mut i: usize = 0;
    while i < targets.len()
        invariant
            i <= targets.len() <= lookups.targets@.len(),
            tmp_asset == first_found(lookups.tmp_font_asset_class.per_image@),
            out@.len() == i,
            forall|k: int| 0 <= k < i ==> Some(#[trigger] out@[k])
                == font_target_of(targets@[k], lookups.targets@[k], tmp_asset),
        decreases targets.len() - i,
    {
        match font_target_exec(targets[i], lookups.targets[i], tmp_asset) {
            Some(ft) => out.push(ft),
            None => {
                assert(font_target_of(targets@[i as int], lookups.targets@[i as int], tmp_asset) is None);
                assert(!all_font_targets(targets@, *lookups));
                return Err(MetadataError::FontSubstitutionMissing);
            },
        }
        i += 1;
    }
    assert forall|k: int| 0 <= k < targets@.len() implies (#[trigger] font_target_of(targets@[k],
        lookups.targets@[k], first_found(lookups.tmp_font_asset_class.per_image@))) is Some by {
        assert(Some(out@[k]) == font_target_of(targets@[k], lookups.targets@[k], tmp_asset));
    }
    assert(all_font_targets(targets@, *lookups));
    Ok(FontMetadata { font_class, font_factory, targets: out, tmp_factory })
}

} // verus!
