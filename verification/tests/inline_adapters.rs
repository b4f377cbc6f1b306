use glyphshift_adapters::console::{visible_console_text, ConsoleWriteCall, ConsoleWriteObserver};
use glyphshift_adapters::direct2d::{Direct2DDrawTextAdapter, Direct2DTextCall};
use glyphshift_adapters::directwrite::{DirectWriteTextLayoutAdapter, DirectWriteTextLayoutCall, TextLayoutFormatting};
use glyphshift_adapters::domain::{Feature, RenderDecision, TextDecision};
use glyphshift_adapters::gtk3_pango::{Gtk3PangoCall, Gtk3PangoInlineAdapter, PangoAttributeProfile};
use glyphshift_adapters::monogame::{MonoGameAdapter, MAX_TEXT_UNITS};
use glyphshift_adapters::qt_painter::{QtDrawTextKind, QtPainterCall, QtPainterInlineAdapter};
use glyphshift_adapters::qt_painter_native::{drawn_point_text, release_ref, replacement_units, take_window_thread_hook, WindowThreadHook};

fn replace(text: &str) -> Option<RenderDecision> {
    Some(RenderDecision { text: TextDecision::Replace(text.to_string()), generation: 1 })
}

fn keep() -> Option<RenderDecision> {
    Some(RenderDecision { text: TextDecision::Keep, generation: 1 })
}

#[test]
fn uniform_layout_uses_dictionary_replacement() {
    let adapter = DirectWriteTextLayoutAdapter::new();
    let call = DirectWriteTextLayoutCall::utf16("Open", TextLayoutFormatting::Uniform);
    assert_eq!(adapter.decision_source(&call).as_deref(), Some("Open"));
    let prepared = adapter.prepare_with(call, replace("打开"));
    assert_eq!(prepared.text(), Some("打开"));
    assert!(!prepared.is_original());
}

#[test]
fn observe_only_reports_source_and_keeps_original() {
    let adapter = DirectWriteTextLayoutAdapter::with_active_features(&[Feature::TextObserve]);
    let call = DirectWriteTextLayoutCall::utf16("Name", TextLayoutFormatting::LocalRanges);
    assert_eq!(adapter.decision_source(&call).as_deref(), Some("Name"));
    let prepared = adapter.prepare_with(call, replace("名称"));
    assert!(prepared.is_original());
}

#[test]
fn non_uniform_invalid_large_reentry_and_failure_fail_open_once() {
    let calls = [
        DirectWriteTextLayoutCall::utf16("Open", TextLayoutFormatting::LocalRanges),
        DirectWriteTextLayoutCall::utf16("Open", TextLayoutFormatting::InlineObject),
        DirectWriteTextLayoutCall::utf16("Open", TextLayoutFormatting::Unknown),
        DirectWriteTextLayoutCall::invalid_utf16(TextLayoutFormatting::Uniform),
        DirectWriteTextLayoutCall::utf16("Open", TextLayoutFormatting::Uniform).with_excessive_length(),
        DirectWriteTextLayoutCall::utf16("Open", TextLayoutFormatting::Uniform).with_reentry_detected(),
    ];
    for call in calls {
        let adapter = DirectWriteTextLayoutAdapter::new();
        let prepared = adapter.prepare_with(call, None);
        assert!(prepared.is_original());
    }
}

#[test]
fn an_empty_layout_replacement_keeps_the_original() {
    let adapter = DirectWriteTextLayoutAdapter::new();
    let prepared = adapter.prepare_with(DirectWriteTextLayoutCall::utf16("Open", TextLayoutFormatting::Uniform), replace(""));
    assert!(prepared.is_original());
    assert_eq!(prepared.text(), Some("Open"));
}

#[test]
fn direct2d_replaces_and_keeps_options_and_measuring_mode() {
    let adapter = Direct2DDrawTextAdapter::new();
    let call = Direct2DTextCall::utf16("Open", 4, 1);
    assert_eq!(adapter.decision_source(&call).as_deref(), Some("Open"));
    let prepared = adapter.prepare_with(call, replace("打开"));
    assert_eq!(prepared.text(), Some("打开"));
    assert_eq!(prepared.units(), "打开".encode_utf16().collect::<Vec<_>>());
    assert_eq!(prepared.options(), 4);
    assert_eq!(prepared.measuring_mode(), 1);
    assert!(!prepared.is_original());

    let empty = Direct2DDrawTextAdapter::new().prepare_with(Direct2DTextCall::utf16("Open", 0, 0), replace(""));
    assert_eq!(empty.text(), Some(""));
    assert!(!empty.is_original());
}

#[test]
fn direct2d_fails_open_on_invalid_reentry_observe_only_and_keep() {
    let adapter = Direct2DDrawTextAdapter::new();
    assert!(adapter.decision_source(&Direct2DTextCall::invalid_utf16(0, 0)).is_none());
    assert!(adapter.prepare_with(Direct2DTextCall::utf16("Open", 0, 0).with_reentry_detected(), replace("打开")).is_original());
    assert!(adapter.prepare_with(Direct2DTextCall::utf16("Open", 0, 0).with_excessive_length(), replace("打开")).is_original());
    assert!(adapter.prepare_with(Direct2DTextCall::utf16("Open", 0, 0), keep()).is_original());
    let observe = Direct2DDrawTextAdapter::with_active_features(&[Feature::TextObserve]);
    assert!(observe.prepare_with(Direct2DTextCall::utf16("Open", 0, 0), replace("打开")).is_original());
    let none = Direct2DDrawTextAdapter::with_active_features(&[]);
    assert!(none.decision_source(&Direct2DTextCall::utf16("Open", 0, 0)).is_none());
}

#[test]
fn plain_text_uses_dictionary_replacement() {
    let adapter = Gtk3PangoInlineAdapter::new();
    let prepared = adapter.prepare_with(Gtk3PangoCall::utf8("Open", PangoAttributeProfile::NoAttributes), replace("打开"));
    assert_eq!(prepared.text(), Some("打开"));
    assert!(!prepared.is_original());
}

#[test]
fn full_text_attributes_allow_replacement() {
    let adapter = Gtk3PangoInlineAdapter::new();
    let prepared = adapter.prepare_with(Gtk3PangoCall::utf8("Name", PangoAttributeProfile::FullTextOnly), replace("名称"));
    assert_eq!(prepared.text(), Some("名称"));
}

#[test]
fn local_or_unknown_attributes_fail_open() {
    for attributes in [PangoAttributeProfile::LocalRanges, PangoAttributeProfile::Unknown] {
        let adapter = Gtk3PangoInlineAdapter::new();
        let call = Gtk3PangoCall::utf8("File", attributes);
        assert!(adapter.decision_source(&call).is_none());
        let prepared = adapter.prepare_with(call, replace("文件"));
        assert_eq!(prepared.text(), Some("File"));
        assert!(prepared.is_original());
    }
}

#[test]
fn invalid_utf8_reentry_and_large_inputs_fail_open() {
    let calls = [
        (Gtk3PangoCall::bytes(vec![0xff], PangoAttributeProfile::NoAttributes), vec![0xffu8]),
        (Gtk3PangoCall::utf8("Open", PangoAttributeProfile::NoAttributes).with_reentry_detected(), b"Open".to_vec()),
        (Gtk3PangoCall::utf8("Open", PangoAttributeProfile::NoAttributes).with_excessive_length(), b"Open".to_vec()),
    ];
    for (call, original_bytes) in calls {
        let adapter = Gtk3PangoInlineAdapter::new();
        let prepared = adapter.prepare_with(call, replace("打开"));
        assert_eq!(prepared.bytes(), original_bytes.as_slice());
        assert!(prepared.is_original());
    }
}

#[test]
fn observe_only_activation_and_callback_failure_preserve_original() {
    let adapter = Gtk3PangoInlineAdapter::with_active_features(&[Feature::TextObserve]);
    let observed = adapter.prepare_with(Gtk3PangoCall::utf8("Open", PangoAttributeProfile::NoAttributes), replace("打开"));
    assert!(observed.is_original());
    let failed = Gtk3PangoInlineAdapter::new().prepare_with(Gtk3PangoCall::utf8("Open", PangoAttributeProfile::NoAttributes), None);
    assert!(failed.is_original());
    let nul = Gtk3PangoInlineAdapter::new().prepare_with(Gtk3PangoCall::utf8("Open", PangoAttributeProfile::NoAttributes), replace("a\0b"));
    assert!(nul.is_original());
}

#[test]
fn replacement_requires_complete_target_font_coverage() {
    let adapter = MonoGameAdapter::default();
    let source: Vec<u16> = "AAA".encode_utf16().collect();
    assert_eq!(adapter.prepare_with(&source, |ch| ch == '中', replace("中文")), None);
    assert_eq!(
        adapter.prepare_with(&source, |ch| ch == '中' || ch == '文', replace("中文")),
        Some("中文".encode_utf16().collect())
    );
}

#[test]
fn malformed_input_and_callback_fail_open() {
    let adapter = MonoGameAdapter::default();
    assert!(adapter.decision_source(&[0xd800]).is_none());
    assert!(adapter.prepare_with(&[0xd800], |_| true, None).is_none());
    assert!(adapter.prepare_with(&[0], |_| true, replace("译文")).is_none());
    assert!(adapter.prepare_with(&vec![b'a' as u16; MAX_TEXT_UNITS + 1], |_| true, replace("译文")).is_none());
}

#[test]
fn observe_only_does_not_replace() {
    let adapter = MonoGameAdapter::with_active_features(&[Feature::TextObserve]);
    let source: Vec<u16> = "AAA".encode_utf16().collect();
    assert!(adapter.prepare_with(&source, |_| true, replace("译文")).is_none());
}

#[test]
fn replaces_each_supported_draw_shape_without_losing_its_kind() {
    for kind in [QtDrawTextKind::Point, QtDrawTextKind::RectangleFlags, QtDrawTextKind::RectangleOption] {
        let adapter = QtPainterInlineAdapter::new();
        let call = QtPainterCall::utf16("Open", kind);
        assert_eq!(adapter.decision_source(&call).as_deref(), Some("Open"));
        let prepared = adapter.prepare_with(call, replace("打开"));
        assert_eq!(prepared.text(), Some("打开"));
        assert_eq!(prepared.kind(), kind);
        assert!(!prepared.is_original());
    }
}

#[test]
fn observe_only_activation_calls_the_dictionary_but_keeps_the_original() {
    let adapter = QtPainterInlineAdapter::with_active_features(&[Feature::TextObserve]);
    let call = QtPainterCall::utf16("Save", QtDrawTextKind::Point);
    assert_eq!(adapter.decision_source(&call).as_deref(), Some("Save"));
    let prepared = adapter.prepare_with(call, replace("保存"));
    assert_eq!(prepared.text(), Some("Save"));
    assert!(prepared.is_original());
}

#[test]
fn invalid_utf16_excessive_input_reentry_error_and_panic_fail_open_once() {
    let adapter = QtPainterInlineAdapter::new();
    for call in [
        QtPainterCall::units(vec![0xd800], QtDrawTextKind::Point),
        QtPainterCall::utf16("Open", QtDrawTextKind::Point).with_excessive_length(),
        QtPainterCall::utf16("Open", QtDrawTextKind::Point).with_reentry_detected(),
    ] {
        assert!(adapter.decision_source(&call).is_none());
        assert!(adapter.prepare_with(call, replace("打开")).is_original());
    }
    assert!(adapter.prepare_with(QtPainterCall::utf16("Open", QtDrawTextKind::Point), None).is_original());
}

#[test]
fn an_actual_over_limit_buffer_is_not_decoded_or_observed() {
    let units = vec![u16::from(b'A'); 16_385];
    let adapter = QtPainterInlineAdapter::new();
    let call = QtPainterCall::units(units, QtDrawTextKind::Point);
    assert!(adapter.decision_source(&call).is_none());
    assert!(adapter.prepare_with(call, replace("打开")).is_original());
}

#[test]
fn prepared_units_match_the_replacement_utf16() {
    let adapter = QtPainterInlineAdapter::new();
    let prepared = adapter.prepare_with(QtPainterCall::utf16("Open", QtDrawTextKind::Point), replace("界面"));
    assert_eq!(prepared.units(), "界面".encode_utf16().collect::<Vec<_>>());
}

#[test]
fn point_draws_use_the_requested_unit_range() {
    assert_eq!(drawn_point_text("Hello", 1, 3).as_deref(), Some("ell"));
    assert_eq!(drawn_point_text("Hello", 1, -1).as_deref(), Some("ello"));
    assert_eq!(drawn_point_text("Hello", 2, 100).as_deref(), Some("llo"));
    assert_eq!(drawn_point_text("Hello", 5, -1), None);
    assert_eq!(drawn_point_text("Hello", 6, -1), None);
    assert_eq!(drawn_point_text("Hello", -1, 2), None);
    assert_eq!(drawn_point_text("Hello", 0, -2), None);
    assert_eq!(drawn_point_text("😀", 0, 1), None);
    assert_eq!(drawn_point_text("😀", 0, 2).as_deref(), Some("😀"));
}

#[test]
fn native_painter_replacements_and_shared_state() {
    let buf: Vec<u16> = "界面xx".encode_utf16().collect();
    assert_eq!(replacement_units(true, true, true, 2, &buf), Some("界面".encode_utf16().collect()));
    assert_eq!(replacement_units(true, true, true, 0, &buf), None);
    assert_eq!(replacement_units(true, true, true, 9, &buf), None);
    assert_eq!(replacement_units(true, false, true, 2, &buf), None);
    let mut count = 2;
    assert!(!release_ref(&mut count));
    assert!(release_ref(&mut count));
    assert!(!release_ref(&mut count));
    assert_eq!(count, 0);
    let mut hooks = vec![
        WindowThreadHook { thread_id: 1, generation: 1, handle: 10 },
        WindowThreadHook { thread_id: 2, generation: 1, handle: 20 },
        WindowThreadHook { thread_id: 3, generation: 1, handle: 30 },
    ];
    assert_eq!(take_window_thread_hook(&mut hooks, 1, 1).map(|h| h.handle), Some(10));
    assert_eq!(hooks.iter().map(|h| h.handle).collect::<Vec<_>>(), vec![30, 20]);
    assert_eq!(take_window_thread_hook(&mut hooks, 2, 2), None);
    assert_eq!(hooks.len(), 2);
}

#[test]
fn con_002_observes_unicode_without_changing_the_write() {
    let (prepared, lines) = ConsoleWriteObserver::new().prepare(ConsoleWriteCall::utf16("Open\r\nFile\r\n"));
    assert_eq!(lines, vec!["Open".to_string(), "File".to_string()]);
    assert_eq!(prepared.text(), Some("Open\r\nFile\r\n"));
    assert_eq!(prepared.units(), "Open\r\nFile\r\n".encode_utf16().collect::<Vec<_>>());
}

#[test]
fn con_003_invalid_excessive_reentry_and_observer_failure_pass_through_once() {
    let cases = [
        (ConsoleWriteCall::invalid_utf16(), 0),
        (ConsoleWriteCall::utf16("Open").with_excessive_length(), 0),
        (ConsoleWriteCall::utf16("Open").with_reentry_detected(), 0),
        (ConsoleWriteCall::utf16("Open"), 1),
    ];
    for (call, expected_observations) in cases {
        let (prepared, lines) = ConsoleWriteObserver::new().prepare(call);
        assert_eq!(lines.len(), expected_observations);
        assert!(!prepared.units().is_empty());
    }
}

#[test]
fn con_005_strips_terminal_control_sequences_before_observing_text() {
    let source: String = [
        "\u{1b}[13G\u{1b}[K\r\n",
        "\u{1b}[0;90mlo\u{1b}[mRight\u{1b}[0;90m\r\n",
        "C:\\Users\\sample>\u{1b}[m\r\n",
        "\u{1b}]8;;https://example.invalid\u{7}Insert Suggestion\u{1b}]8;;\u{7}\r\n",
    ].concat();
    let (prepared, lines) = ConsoleWriteObserver::new().prepare(ConsoleWriteCall::utf16(&source));
    assert_eq!(lines, ["loRight", "C:\\Users\\sample>", "Insert Suggestion"]);
    assert_eq!(prepared.text(), Some(source.as_str()));
}

#[test]
fn observe_disabled_console_observes_nothing() {
    let (prepared, lines) = ConsoleWriteObserver::with_text_observe(false).prepare(ConsoleWriteCall::utf16("Open"));
    assert!(lines.is_empty());
    assert_eq!(prepared.text(), Some("Open"));
    assert_eq!(visible_console_text("\u{1b}[1mBold\u{1b}[0m"), "Bold");
}

#[test]
fn visible_console_text_is_plain_and_stable() {
    let noisy = "\u{1b}[31mred\u{1b}[0m\tok\u{7}\r\n\u{1b}]0;title\u{7}done";
    let visible = visible_console_text(noisy);
    assert_eq!(visible, "red ok\r\ndone");
    assert_eq!(visible_console_text(&visible), visible);
    assert_eq!(visible_console_text("plain 文字\r\n"), "plain 文字\r\n");
}
