use glyphshift_adapters::native_abi::{negotiate_features, NegotiationStatus};
use glyphshift_adapters::qt_symbols::{
    Arch, Namespace, DRAW_POINT_SIMPLE_SYMBOL, DRAW_RECT_COORDS_SYMBOL, DRAW_RECT_SYMBOL,
    QAPPLICATION_ALL_WIDGETS_SYMBOL, QSTRING5_CTOR_SYMBOL, QSTRING6_CTOR_SYMBOL, QSTRING_UTF16_SYMBOL,
    QWIDGET_FIND_SYMBOL, QWIDGET_REPAINT_SYMBOL,
};
use glyphshift_adapters::qt_translation::{
    legacy_source_only_replacement_safe, qt_placeholders_compatible, supported_qt_profile, supported_qt_version,
    supports_immediate_refresh, QCORE_INSTANCE_SYMBOL, QCORE_POST_EVENT_SYMBOL, QEVENT_CLONE_SYMBOL,
    QEVENT_CTOR_SYMBOL, QEVENT_DTOR_SYMBOL, QEVENT_LANGUAGE_CHANGE, TRANSLATE_SYMBOL,
};
use glyphshift_adapters::qt_translation::{
    supported_qt_profile_in, supports_immediate_refresh_in, QtProfileSet, QMALLOC_SYMBOL,
};

#[test]
fn namespaced_core_selects_a_consistent_profile() {
    let utf16 = b"?utf16@QString@QT@@QEBAPEBGXZ\0";
    let namespace = Namespace::detect(6, Arch::X64, |symbol: &'static str| symbol.as_bytes() == utf16).unwrap();
    assert_eq!(namespace, Namespace::Qt);
    assert_eq!(
        namespace.symbol(Arch::X64, DRAW_RECT_SYMBOL).unwrap().as_bytes(),
        b"?drawText@QPainter@QT@@QEAAXAEBVQRect@2@HAEBVQString@2@PEAV32@@Z\0"
    );
    assert_ne!(namespace.symbol(Arch::X64, QWIDGET_REPAINT_SYMBOL).unwrap(), QWIDGET_REPAINT_SYMBOL);
}

#[test]
fn standard_qt_preserves_existing_symbols() {
    for major in [5, 6] {
        let namespace = Namespace::detect(major, Arch::X64, |symbol: &'static str| symbol == QSTRING_UTF16_SYMBOL).unwrap();
        assert_eq!(namespace.symbol(Arch::X64, DRAW_RECT_SYMBOL).unwrap(), DRAW_RECT_SYMBOL);
        assert_eq!(namespace.symbol(Arch::X64, QSTRING5_CTOR_SYMBOL).unwrap(), QSTRING5_CTOR_SYMBOL);
    }
}

#[test]
fn silhouette_isl0_qt6_namespace_is_recognized() {
    let utf16 = b"?utf16@QString@isl0@@QEBAPEBGXZ\0";
    let namespace = Namespace::detect(6, Arch::X64, |symbol: &'static str| symbol.as_bytes() == utf16).unwrap();
    assert_eq!(namespace, Namespace::Isl0);
    assert_eq!(
        namespace.symbol(Arch::X64, DRAW_RECT_SYMBOL).unwrap().as_bytes(),
        b"?drawText@QPainter@isl0@@QEAAXAEBVQRect@2@HAEBVQString@2@PEAV32@@Z\0"
    );
    assert_eq!(
        namespace.symbol(Arch::X64, DRAW_POINT_SIMPLE_SYMBOL).unwrap().as_bytes(),
        b"?drawText@QPainter@isl0@@QEAAXAEBVQPointF@2@AEBVQString@2@@Z\0"
    );
    assert_eq!(
        namespace.symbol(Arch::X64, DRAW_RECT_COORDS_SYMBOL).unwrap().as_bytes(),
        b"?drawText@QPainter@isl0@@QEAAXHHHHHAEBVQString@2@PEAVQRect@2@@Z\0"
    );
    assert_eq!(
        namespace.symbol(Arch::X64, QAPPLICATION_ALL_WIDGETS_SYMBOL).unwrap().as_bytes(),
        b"?allWidgets@QApplication@isl0@@SA?AV?$QList@PEAVQWidget@isl0@@@2@XZ\0"
    );
}

#[test]
fn unknown_profiles_and_unverified_qt5_namespace_fail_closed() {
    assert!(Namespace::detect(6, Arch::X64, |_: &'static str| false).is_err());
    let utf16 = Namespace::Global.symbol(Arch::X64, QSTRING_UTF16_SYMBOL).unwrap();
    assert!(Namespace::detect(5, Arch::X64, |symbol: &'static str| symbol != utf16).is_err());
    assert!(Namespace::Qt.symbol(Arch::X64, QSTRING5_CTOR_SYMBOL).is_err());
    assert!(Namespace::Qt.symbol(Arch::X64, "unknown\0").is_err());
}

#[test]
fn qt5_x86_selects_member_and_static_decorations() {
    let utf16 = b"?utf16@QString@@QBEPBGXZ\0";
    assert_eq!(
        Namespace::detect(5, Arch::X86, |symbol: &'static str| symbol.as_bytes() == utf16),
        Ok(Namespace::Global)
    );
    assert_eq!(
        Namespace::Global.symbol(Arch::X86, QWIDGET_FIND_SYMBOL).unwrap().as_bytes(),
        b"?find@QWidget@@SAPAV1@I@Z\0"
    );
    assert!(Namespace::Global.symbol(Arch::X86, QSTRING6_CTOR_SYMBOL).is_err());
}

#[test]
fn namespaced_profiles_are_never_probed_on_x86_or_qt5() {
    let qt = b"?utf16@QString@QT@@QEBAPEBGXZ\0";
    assert!(Namespace::detect(5, Arch::X64, |symbol: &'static str| symbol.as_bytes() == qt).is_err());
    assert!(Namespace::detect(6, Arch::X86, |symbol: &'static str| symbol.as_bytes() == qt).is_err());
}

#[test]
fn only_verified_qt_versions_are_accepted() {
    assert!(supported_qt_version(b"6.8.3"));
    assert!(supported_qt_version(b"6.11.1"));
    assert!(!supported_qt_version(b"6.8.2"));
    assert!(!supported_qt_version(b"6.9.0"));
    assert!(!supported_qt_version(b"6.11.0"));
    assert!(!supported_qt_version(b"6.12.0"));
}

#[test]
fn production_profile_accepts_only_verified_qt6() {
    assert!(supported_qt_profile(6, b"6.10.3"));
    assert_eq!(supported_qt_profile(5, b"5.15.18"), false);
    assert_eq!(supported_qt_profile(5, b"5.15.13"), false);
    assert!(!supported_qt_profile(5, b"5.15.17"));
    assert!(!supported_qt_profile(5, b"6.10.3"));
    assert!(!supported_qt_profile(6, b"5.15.18"));
    assert!(!supported_qt_profile(6, b"6.8.3"));
    assert!(!supported_qt_profile(6, b"6.10.1"));
}

#[test]
fn refresh_profiles_are_explicit_and_versioned() {
    assert_eq!(supports_immediate_refresh(5, b"5.15.13"), false);
    assert!(!supports_immediate_refresh(5, b"5.15.18"));
    assert!(supports_immediate_refresh(6, b"6.10.3"));
    assert!(!supports_immediate_refresh(6, b"6.10.1"));
}

#[test]
fn qt_placeholder_contract_allows_reordering_but_rejects_loss() {
    assert!(qt_placeholders_compatible("%1 copied to %L2", "已将 %L2 复制为 %1"));
    assert!(qt_placeholders_compatible("%n file(s), %1 failed", "%1 失败，共 %n 个文件"));
    assert!(!qt_placeholders_compatible("Open %1", "打开"));
    assert!(!qt_placeholders_compatible("%n file(s)", "%Ln 个文件"));
    assert!(qt_placeholders_compatible("Progress: 100%%", "进度：100%%"));
}

#[test]
fn duplicated_or_extra_placeholders_are_rejected() {
    assert!(!qt_placeholders_compatible("%1", "%1 %1"));
    assert!(!qt_placeholders_compatible("Open", "打开 %1"));
    assert!(qt_placeholders_compatible("%1 and %1", "%1 和 %1"));
}

#[test]
fn msvc_x64_symbol_is_the_verified_global_qt_export() {
    assert_eq!(TRANSLATE_SYMBOL.as_bytes(), b"?translate@QCoreApplication@@SA?AVQString@@PEBD00H@Z\0");
}

#[test]
fn qt6_refresh_symbols_match_the_verified_public_exports() {
    assert_eq!(QCORE_INSTANCE_SYMBOL.as_bytes(), b"?instance@QCoreApplication@@SAPEAV1@XZ\0");
    assert_eq!(
        QCORE_POST_EVENT_SYMBOL.as_bytes(),
        b"?postEvent@QCoreApplication@@SAXPEAVQObject@@PEAVQEvent@@H@Z\0"
    );
    assert_eq!(QEVENT_CTOR_SYMBOL.as_bytes(), b"??0QEvent@@QEAA@W4Type@0@@Z\0");
    assert_eq!(QEVENT_DTOR_SYMBOL.as_bytes(), b"??1QEvent@@UEAA@XZ\0");
    assert_eq!(QEVENT_CLONE_SYMBOL.as_bytes(), b"?clone@QEvent@@UEBAPEAV1@XZ\0");
    assert_eq!(QEVENT_LANGUAGE_CHANGE, 89);
}

#[test]
fn legacy_hosts_replace_only_non_plural_calls() {
    assert!(legacy_source_only_replacement_safe(-1));
    assert!(!legacy_source_only_replacement_safe(2));
    assert!(!legacy_source_only_replacement_safe(0));
}

#[test]
fn negotiation_refuses_unsupported_then_unauthorized_features() {
    let both = 0b11u64;
    let n = negotiate_features(both, both, both);
    assert_eq!(n.status, NegotiationStatus::Accepted);
    assert_eq!(n.active_feature_bits, both);
    assert_eq!(negotiate_features(both, both, 0b01).status, NegotiationStatus::UnauthorizedFeature);
    assert_eq!(negotiate_features(both, both | (1 << 63), u64::MAX).status, NegotiationStatus::UnsupportedFeature);
    assert_eq!(negotiate_features(both, both | (1 << 63), u64::MAX).active_feature_bits, 0);
}

// The research profile set, which the production functions above leave out.
fn research_profile(major: u8, version: &[u8]) -> bool {
    supported_qt_profile_in(QtProfileSet::Research, major, version)
}

fn research_refresh(major: u8, version: &[u8]) -> bool {
    supports_immediate_refresh_in(QtProfileSet::Research, major, version)
}

#[test]
fn research_profile_can_explicitly_enable_verified_qt5() {
    assert!(research_profile(5, b"5.15.13"));
    assert!(research_profile(5, b"5.15.18"));
    assert!(research_profile(6, b"6.10.3"));
}

#[test]
fn qt5_refresh_uses_the_verified_qmalloc_export() {
    assert_eq!(QMALLOC_SYMBOL.as_bytes(), b"?qMalloc@@YAPEAX_K@Z\0");
    assert!(research_refresh(5, b"5.15.13"));
    assert!(!research_refresh(5, b"5.15.18"));
}

#[test]
fn research_profile_keeps_other_versions_out() {
    assert!(!research_profile(5, b"5.15.17"));
    assert!(!research_profile(4, b"5.15.13"));
    assert!(!research_refresh(6, b"6.10.1"));
    assert!(research_refresh(6, b"6.10.3"));
    assert!(!supported_qt_profile_in(QtProfileSet::Production, 5, b"5.15.13"));
}

use glyphshift_adapters::qt_translation::{encode_translation_event, TranslationCall};

#[test]
fn translation_events_carry_the_call_metadata_in_utf16() {
    let call = TranslationCall {
        context: Some("Application".to_string()),
        source: "%n 个文件".to_string(),
        disambiguation: None,
        n: 3,
    };
    let event = encode_translation_event(&call);
    assert_eq!(event.source, "%n 个文件".encode_utf16().collect::<Vec<u16>>());
    assert_eq!(event.context, Some("Application".encode_utf16().collect::<Vec<u16>>()));
    assert_eq!(event.disambiguation, None);
    assert_eq!(event.plural_n, Some(3));
    let plain = TranslationCall { context: None, source: "Open".to_string(), disambiguation: Some("menu".to_string()), n: -1 };
    let event = encode_translation_event(&plain);
    assert_eq!(event.context, None);
    assert_eq!(event.disambiguation, Some("menu".encode_utf16().collect::<Vec<u16>>()));
    assert_eq!(event.plural_n, None);
}
