use glyphshift_adapters::capture::{protected_or_blank, rect_dimension, AcquisitionError};
use glyphshift_adapters::catsystem2::{classic_bounds, classic_parts, decode};
use glyphshift_adapters::raylib::{normalize_raylib_text, native_replacement_for, RaylibInlineAdapter, MAX_FALLBACK_GLYPHS};
use glyphshift_adapters::raylib_atlas::{
    font_abi_plausible, missing_loaded_glyphs, plan_atlas, plan_draw, required_codepoints, AtlasKey, AtlasPlan, DrawPlan,
    LoadedGlyph,
    RenderThreadBinding,
};
use glyphshift_adapters::domain::{Feature, RenderDecision, TextDecision};
use glyphshift_adapters::ordered::{ascending_values_i32, ascending_values_usize};
use glyphshift_adapters::inline_bytes::MAX_TEXT_BYTES;
use glyphshift_adapters::sidefx::SidefxCvPaintBufferInlineAdapter;

fn replace(text: &str) -> Option<RenderDecision> {
    Some(RenderDecision { text: TextDecision::Replace(text.to_string()), generation: 2 })
}

#[test]
fn blank_and_transparent_frames_fail_closed() {
    assert!(protected_or_blank(&[0, 0, 0, 255, 0, 0, 0, 255]));
    assert!(protected_or_blank(&[255, 255, 255, 0]));
    assert!(!protected_or_blank(&[1, 0, 0, 255]));
}

#[test]
fn empty_frames_are_blank_and_partial_pixels_are_ignored() {
    assert!(protected_or_blank(&[]));
    assert!(protected_or_blank(&[0, 0, 0, 255, 9, 9]));
    assert!(!protected_or_blank(&[0, 0, 0, 255, 0, 0, 7, 1]));
}

#[test]
fn rect_dimensions_must_be_positive() {
    assert_eq!(rect_dimension(-10, 30), Ok(40));
    assert_eq!(rect_dimension(5, 5), Err(AcquisitionError::ProviderUnavailable));
    assert_eq!(rect_dimension(6, 5), Err(AcquisitionError::ProviderUnavailable));
    assert_eq!(rect_dimension(i32::MIN, i32::MAX), Ok(u32::MAX));
}

#[test]
fn classic_color_prefix_and_single_byte_markers_are_exact() {
    let input = b"\\cd0xffffe2b0;\\c0xff123456;Synthetic\xff\xff";
    assert_eq!(
        classic_parts(input),
        (input[..27].to_vec(), b"Synthetic".to_vec(), [255u8, 255][..].to_vec())
    );
    for bad in [b"\\c0xBAD;text".as_slice(), b"text\\c0xff123456;tail", b"\\c0xGG123456;text"] {
        assert_eq!(classic_parts(bad), (Vec::new(), bad.to_vec(), Vec::new()));
    }
}

#[test]
fn classic_bounds_keep_an_all_marker_text_as_trailer() {
    assert_eq!(classic_bounds(b"\xff\xff\xff"), (0, 0));
    assert_eq!(classic_bounds(b"\\c0xff123456;"), (13, 13));
}

#[test]
fn separates_only_the_exact_terminal_marker() {
    let mut input = "Synthetic dialogue 对话".as_bytes().to_vec();
    assert_eq!(decode(&input), Some(("Synthetic dialogue 对话".to_string(), Vec::new())));
    input.extend_from_slice(&[255, 255]);
    assert_eq!(decode(&input), Some(("Synthetic dialogue 对话".to_string(), vec![255, 255])));
    input.extend_from_slice(&[255, 255]);
    assert_eq!(decode(&input), Some(("Synthetic dialogue 对话".to_string(), vec![255, 255, 255, 255])));
    for invalid in [
        b"text\xff".as_slice(),
        b"text\xff\xff\xff",
        b"text\xff\xff\xff\xff\xff",
        b"text\xff\xff\xff\xffmore",
        b"\xc0\x80",
    ] {
        assert!(decode(invalid).is_none());
    }
}

#[test]
fn normalizes_controls_to_raylib_draw_text_ex_semantics() {
    assert_eq!(normalize_raylib_text("first\r\nsecond\rthird\tfourth"), "first\nsecond\nthird fourth");
}

#[test]
fn carriage_returns_before_a_line_feed_become_one_break() {
    assert_eq!(normalize_raylib_text("a\r\r\nb"), "a\n\nb");
    assert_eq!(normalize_raylib_text(""), "");
}

#[test]
fn utf8_source_prepares_the_dictionary_replacement() {
    let adapter = RaylibInlineAdapter::new();
    assert_eq!(adapter.decision_source(b"Click to Select File").as_deref(), Some("Click to Select File"));
    let replacement = adapter.prepare_with(b"Click to Select File", replace("选择文件"));
    assert_eq!(replacement.as_deref(), Some("选择文件".as_bytes()));
}

#[test]
fn invalid_or_unbounded_text_fails_open() {
    assert!(RaylibInlineAdapter::new().prepare_with(&[0xff], replace("译文")).is_none());
    assert!(RaylibInlineAdapter::new().prepare_with(&vec![b'a'; MAX_TEXT_BYTES + 1], replace("译文")).is_none());
    assert!(RaylibInlineAdapter::new().prepare_with(b"Open", replace("含\0空字节")).is_none());
    assert!(RaylibInlineAdapter::new().decision_source(&[]).is_none());
}

#[test]
fn observe_only_or_failed_decision_keeps_the_original_call() {
    let adapter = RaylibInlineAdapter::with_active_features(&[Feature::TextObserve]);
    assert!(adapter.prepare_with(b"Open", replace("打开")).is_none());
    assert!(RaylibInlineAdapter::new().prepare_with(b"Open", None).is_none());
    assert!(RaylibInlineAdapter::new()
        .prepare_with(b"Open", Some(RenderDecision { text: TextDecision::Keep, generation: 1 }))
        .is_none());
}

#[test]
fn utf8_multiline_source_prepares_replacement() {
    let adapter = SidefxCvPaintBufferInlineAdapter::new();
    let source = "Create\nNode".as_bytes();
    assert_eq!(adapter.decision_source(source).as_deref(), Some("Create\nNode"));
    assert_eq!(adapter.prepare_with(source, replace("创建\n节点")).as_deref(), Some("创建\n节点".as_bytes()));
}

#[test]
fn malformed_unbounded_or_observe_only_text_fails_open() {
    let adapter = SidefxCvPaintBufferInlineAdapter::new();
    assert!(adapter.prepare_with(&[0xff], replace("译文")).is_none());
    assert!(adapter.prepare_with(&vec![b'a'; MAX_TEXT_BYTES + 1], replace("译文")).is_none());
    assert!(adapter.prepare_with(b"Open", replace("")).is_none());
    let observe_only = SidefxCvPaintBufferInlineAdapter::with_active_features(&[Feature::TextObserve]);
    assert!(observe_only.prepare_with(b"Open", replace("打开")).is_none());
}

#[test]
fn native_replacement_is_laid_out_and_bounded() {
    let units: Vec<u16> = "a\r\nb\tc".encode_utf16().collect();
    assert_eq!(native_replacement_for(true, true, &units), Some(b"a\nb c".to_vec()));
    assert_eq!(native_replacement_for(false, true, &units), None);
    assert_eq!(native_replacement_for(true, false, &units), None);
    assert_eq!(native_replacement_for(true, true, &[]), None);
    assert_eq!(native_replacement_for(true, true, &[0xdc00]), None);
    assert_eq!(native_replacement_for(true, true, &[0x61, 0]), None);
}

#[test]
fn atlas_is_reused_when_it_covers_the_text_and_grown_otherwise() {
    let required = required_codepoints("中文\n中");
    assert_eq!(required, vec!['中' as i32, '文' as i32]);
    assert_eq!(required_codepoints("b\na c"), vec![' ' as i32, 'a' as i32, 'b' as i32, 'c' as i32]);
    let active = Some(AtlasKey { font_path: "font.ttf".into(), codepoints: vec!['中' as i32, '文' as i32, 'x' as i32] });
    assert_eq!(plan_atlas(&active, "font.ttf", &required), AtlasPlan::UseActive);
    let more = required_codepoints("字");
    match plan_atlas(&active, "font.ttf", &more) {
        AtlasPlan::Build(d) => {
            assert_eq!(d, vec!['x' as i32, '中' as i32, '字' as i32, '文' as i32]);
        }
        other => panic!("unexpected plan {other:?}"),
    }
    match plan_atlas(&active, "other.ttf", &required) {
        AtlasPlan::Build(d) => assert_eq!(d.len(), 2),
        other => panic!("unexpected plan {other:?}"),
    }
    let many: Vec<i32> = (0..(MAX_FALLBACK_GLYPHS as i32 + 1)).map(|i| 0x4e00 + i).collect();
    assert_eq!(plan_atlas(&None, "font.ttf", &many), AtlasPlan::DrawOriginal);
}

#[test]
fn missing_glyphs_and_font_plausibility() {
    let glyphs = [LoadedGlyph { value: 1, has_image: true }, LoadedGlyph { value: 2, has_image: false }];
    assert_eq!(missing_loaded_glyphs(&glyphs, &[1, 2]), vec![2]);
    assert_eq!(missing_loaded_glyphs(&glyphs, &[1]), vec![1]);
    assert!(font_abi_plausible(32, 95, 3, true, true));
    assert!(!font_abi_plausible(0, 95, 3, true, true));
    assert!(!font_abi_plausible(32, 95, 0, true, true));
    let mut binding = RenderThreadBinding { thread: None };
    assert!(binding.bind(5));
    assert!(binding.bind(5));
    assert!(!binding.bind(6));
}

use glyphshift_adapters::catsystem2::{accept_answer, admission, completed, decide_utf8, plain, reassemble, should_set, Admission, Owner, Profile};
use glyphshift_adapters::catsystem2_image::{parse_pe_layout, Image, PeLayout, TEXT_OBJECT_TYPE};

fn put32(bytes: &mut [u8], at: usize, value: u32) {
    bytes[at..at + 4].copy_from_slice(&value.to_le_bytes());
}

fn put16(bytes: &mut [u8], at: usize, value: u16) {
    bytes[at..at + 2].copy_from_slice(&value.to_le_bytes());
}

fn pe_header() -> Vec<u8> {
    let mut h = vec![0u8; 4096];
    h[0] = b'M';
    h[1] = b'Z';
    put32(&mut h, 60, 0x80);
    h[0x80..0x86].copy_from_slice(b"PE\0\0\x4c\x01");
    put16(&mut h, 0x80 + 6, 2);
    put16(&mut h, 0x80 + 20, 0xe0);
    put16(&mut h, 0x80 + 24, 0x10b);
    put32(&mut h, 0x80 + 80, 0x5000);
    let table = 0x80 + 24 + 0xe0;
    put32(&mut h, table + 8, 0x1000);
    put32(&mut h, table + 12, 0x1000);
    put32(&mut h, table + 36, 0x6000_0020);
    put32(&mut h, table + 40 + 8, 0x1000);
    put32(&mut h, table + 40 + 12, 0x2000);
    put32(&mut h, table + 40 + 36, 0x4000_0040);
    h
}

#[test]
fn pe_headers_give_size_and_executable_sections() {
    let h = pe_header();
    assert_eq!(
        parse_pe_layout(&h, 0x40_0000),
        Some(PeLayout { size: 0x5000, executable: vec![(0x40_1000, 0x40_2000)] })
    );
    let mut not_pe32 = h.clone();
    put16(&mut not_pe32, 0x80 + 24, 0x20b);
    assert_eq!(parse_pe_layout(&not_pe32, 0x40_0000), None);
    let mut past_end = h.clone();
    put32(&mut past_end, 0x80 + 24 + 0xe0 + 40 + 12, 0x4800);
    assert_eq!(parse_pe_layout(&past_end, 0x40_0000), None);
    assert_eq!(parse_pe_layout(b"MZ", 0x40_0000), None);
    assert_eq!(parse_pe_layout(&h[..0x100], 0x40_0000), None);
}

fn rtti_image(extra_reference: bool) -> Image {
    let base = 0x10000usize;
    let mut bytes = vec![0u8; 0x200];
    let name = TEXT_OBJECT_TYPE.as_bytes();
    bytes[0x100..0x100 + name.len()].copy_from_slice(name);
    let descriptor = base + 0x100 - 8;
    let locator = 0x40;
    put32(&mut bytes, locator + 12, descriptor as u32);
    put32(&mut bytes, locator + 16, base as u32);
    put32(&mut bytes, 0x80, (base + locator) as u32);
    for slot in 0..4 {
        put32(&mut bytes, 0x84 + slot * 4, (base + 0x180) as u32);
    }
    if extra_reference {
        put32(&mut bytes, 0x1c0, (base + locator) as u32);
        for slot in 0..4 {
            put32(&mut bytes, 0x1c4 + slot * 4, (base + 0x184) as u32);
        }
    }
    Image { base, bytes, executable: vec![(base + 0x180, base + 0x1a0)] }
}

#[test]
fn the_text_object_table_is_found_through_its_locator() {
    let image = rtti_image(false);
    assert_eq!(image.named_table(TEXT_OBJECT_TYPE.as_bytes()), Some(0x10084));
    assert_eq!(image.word(0x10080), Some(0x10040));
    assert!(image.code(0x10190));
    assert!(!image.code(0x101a0));
    assert_eq!(image.read(0x101fe, 4), None);
    assert_eq!(image.references(0x10040), vec![0x10080]);
}

#[test]
fn ambiguous_or_missing_tables_are_refused() {
    assert_eq!(rtti_image(true).named_table(TEXT_OBJECT_TYPE.as_bytes()), None);
    let empty = Image { base: 0x10000, bytes: vec![0; 64], executable: vec![] };
    assert_eq!(empty.named_table(TEXT_OBJECT_TYPE.as_bytes()), None);
}

#[test]
fn dialogue_decisions_keep_markers_and_refuse_commands() {
    assert!(plain(b"Hello\nworld"));
    assert!(!plain(b"a[b]"));
    assert!(!plain(b""));
    assert!(completed(Profile::Utf8, b"x\xff\xff"));
    assert!(!completed(Profile::Utf8, b"x\xff"));
    assert!(completed(Profile::Classic, b"x\xff"));

    let reply: Vec<u16> = "你好".encode_utf16().collect();
    let mut generation = 3;
    let out = decide_utf8(b"Hello\xff\xff", &mut generation, 4, true, true, true, 2, &reply);
    assert_eq!(out, [&"你好".as_bytes()[..], &[255u8, 255][..]].concat());
    assert_eq!(generation, 4);
    let stale = decide_utf8(b"Hello\xff\xff", &mut generation, 2, true, true, true, 2, &reply);
    assert_eq!(stale, b"Hello\xff\xff".to_vec());
    assert_eq!(generation, 4);
    let command: Vec<u16> = "a[b".encode_utf16().collect();
    assert_eq!(decide_utf8(b"Hello", &mut generation, 5, true, true, true, 3, &command), b"Hello".to_vec());
    assert_eq!(generation, 5);
    assert!(!accept_answer(&mut generation, 6, false, true, true, 1, 4, b"Hi"));
    assert_eq!(generation, 6);
    assert_eq!(reassemble(b"src", b"\\c0x00000000;", Some(b"body".to_vec()), b"\xff"), b"\\c0x00000000;body\xff".to_vec());
    assert_eq!(reassemble(b"src", b"", None, b""), b"src".to_vec());
}

#[test]
fn tick_records_keep_the_original_under_our_own_writes() {
    let owner = Owner { thread: 1, source: b"Hello".to_vec(), last: b"Hi".to_vec(), epoch: 2, presented: false };
    match admission(Some(owner.clone()), b"Hi", 1, true, 0) {
        Admission::Track(o) => {
            assert_eq!(o.source, b"Hello".to_vec());
            assert!(o.presented);
            assert_eq!(o.epoch, 2);
        }
        other => panic!("unexpected {other:?}"),
    }
    match admission(Some(owner.clone()), b"Changed", 1, false, 0) {
        Admission::Track(o) => assert_eq!(o.source, b"Changed".to_vec()),
        other => panic!("unexpected {other:?}"),
    }
    assert_eq!(admission(Some(owner.clone()), b"Hi", 2, false, 0), Admission::Skip);
    assert_eq!(admission(None, b"", 1, false, 0), Admission::Drop);
    assert!(should_set(&owner, b"Hallo", 2, false));
    assert!(!should_set(&owner, b"Hi", 2, false));
    assert!(should_set(&owner, b"Hi", 3, true));
    assert!(should_set(&owner, b"Hello", 3, true));
    let untranslated = Owner { last: b"Hello".to_vec(), ..owner };
    assert!(!should_set(&untranslated, b"Hello", 3, true));
}

#[test]
fn collected_values_come_out_once_each_in_ascending_order() {
    assert_eq!(ascending_values_usize(&vec![0x4010, 0x4000, 0x4010, 0x4008]), vec![0x4000, 0x4008, 0x4010]);
    assert_eq!(ascending_values_usize(&vec![]), Vec::<usize>::new());
    assert_eq!(ascending_values_i32(&vec![3, -7, 3, 0, -7]), vec![-7, 0, 3]);
}

#[test]
fn draw_plan_follows_the_hook_order() {
    let active = Some(AtlasKey { font_path: "font.ttf".into(), codepoints: vec!['中' as i32, '文' as i32, 'x' as i32] });
    let rep = "中文".as_bytes();
    assert_eq!(plan_draw(rep, false, Some("font.ttf"), true, &active, true), DrawPlan::Original);
    assert_eq!(plan_draw(&[0xff], true, Some("font.ttf"), true, &active, true), DrawPlan::Original);
    assert_eq!(plan_draw(b"\n", true, None, false, &None, true), DrawPlan::ReplacementInHostFont);
    assert_eq!(plan_draw(rep, true, None, true, &active, true), DrawPlan::Original);
    assert_eq!(plan_draw(rep, true, Some("font.ttf"), false, &active, true), DrawPlan::Original);
    assert_eq!(plan_draw(rep, true, Some("font.ttf"), true, &active, true), DrawPlan::ReplacementInAtlas);
    assert_eq!(plan_draw(rep, true, Some("font.ttf"), true, &active, false), DrawPlan::RetireAndDrawOriginal);
    assert_eq!(
        plan_draw("字".as_bytes(), true, Some("font.ttf"), true, &active, true),
        DrawPlan::BuildAtlas { codepoints: vec!['x' as i32, '中' as i32, '字' as i32, '文' as i32], keep: true, draw: true }
    );
    assert_eq!(
        plan_draw("字".as_bytes(), true, Some("font.ttf"), true, &active, false),
        DrawPlan::BuildAtlas { codepoints: vec!['x' as i32, '中' as i32, '字' as i32, '文' as i32], keep: false, draw: false }
    );
}
