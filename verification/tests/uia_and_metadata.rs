use glyphshift_adapters::uia::{
    UiaElementSnapshot, UiaIgnoreReason, UiaObservationOutcome, UiaObserver, UiaTextChannel, UiaTextObservation,
};
use glyphshift_adapters::uia_worker::{
    fallback_element_key, health, runtime_id_key, scan_length, DegradedReason, PendingEvents, WindowsUiaAcquisitionWorker,
    WorkerFault, WorkerLifecycle, MAX_PENDING_EVENTS,
};
use glyphshift_adapters::capture::AcquisitionError;
use glyphshift_adapters::unity_metadata::{
    class_across_images, exact_method, locate_font_metadata, locate_standard_ui, ClassLookup, FontFactory, FontLookups,
    MetadataError, MethodCandidate, MethodParam, StandardUiKind, TargetFontLookup, TextClassLookup, TmpFontAssetFactory,
};

fn observed(outcome: UiaObservationOutcome) -> UiaTextObservation {
    match outcome {
        UiaObservationOutcome::Observed(observation) => observation,
        _ => panic!("expected observation"),
    }
}

#[test]
fn uia_selects_one_primary_channel_per_element() {
    let mut observer = UiaObserver::default();
    let label = observed(observer.observe(UiaElementSnapshot::new("label").with_name("Open")));
    let document = observed(observer.observe(
        UiaElementSnapshot::new("document").with_name("Document").with_text("Line 1\r\nLine 2"),
    ));
    let edit = observed(observer.observe(UiaElementSnapshot::new("edit").with_name("Search").with_value("query")));
    assert_eq!(label.channel(), UiaTextChannel::Name);
    assert_eq!(label.text(), "Open");
    assert_eq!(document.channel(), UiaTextChannel::TextPattern);
    assert_eq!(document.text(), "Line 1\nLine 2");
    assert_eq!(edit.channel(), UiaTextChannel::ValuePattern);
    assert_eq!(edit.text(), "query");
    assert_eq!(edit.element_key(), "edit");
}

#[test]
fn uia_rejects_password_empty_invalid_and_excessive_text() {
    let mut observer = UiaObserver::default();
    let cases = [
        (UiaElementSnapshot::new("password").password(true).with_value("secret"), UiaIgnoreReason::Sensitive),
        (UiaElementSnapshot::new("empty").with_name("  "), UiaIgnoreReason::NoText),
        (UiaElementSnapshot::new("").with_name("Open"), UiaIgnoreReason::InvalidElement),
        (UiaElementSnapshot::new("large").with_text(&"x".repeat(16 * 1024 + 1)), UiaIgnoreReason::TextTooLong),
    ];
    for (snapshot, expected) in cases {
        assert_eq!(observer.observe(snapshot), UiaObservationOutcome::Ignored(expected));
    }
}

#[test]
fn uia_emits_changes_including_a_to_b_to_a_but_not_duplicates() {
    let mut observer = UiaObserver::default();
    assert!(matches!(observer.observe(UiaElementSnapshot::new("field").with_value("A")), UiaObservationOutcome::Observed(_)));
    assert_eq!(
        observer.observe(UiaElementSnapshot::new("field").with_value("A")),
        UiaObservationOutcome::Ignored(UiaIgnoreReason::Unchanged)
    );
    assert!(matches!(observer.observe(UiaElementSnapshot::new("field").with_value("B")), UiaObservationOutcome::Observed(_)));
    assert!(matches!(observer.observe(UiaElementSnapshot::new("field").with_value("A")), UiaObservationOutcome::Observed(_)));
}

#[test]
fn uia_invalidation_allows_a_recreated_element_to_emit_again() {
    let mut observer = UiaObserver::default();
    let snapshot = || UiaElementSnapshot::new("recreated").with_name("Open");
    assert!(matches!(observer.observe(snapshot()), UiaObservationOutcome::Observed(_)));
    observer.invalidate("recreated");
    assert!(matches!(observer.observe(snapshot()), UiaObservationOutcome::Observed(_)));
}

#[test]
fn pending_events_are_bounded_and_rescans_reset_them() {
    let mut pending = PendingEvents::new();
    for _ in 0..MAX_PENDING_EVENTS {
        pending.notify();
    }
    assert_eq!(pending.count, MAX_PENDING_EVENTS);
    assert_eq!(pending.dropped, 0);
    pending.notify();
    assert_eq!(pending.count, MAX_PENDING_EVENTS);
    assert_eq!(pending.dropped, 1);
    assert!(pending.take_rescan(false));
    assert_eq!(pending.count, 0);
    assert!(!pending.take_rescan(false));
    assert!(pending.take_rescan(true));
}

#[test]
fn worker_health_reports_the_first_failing_check() {
    assert_eq!(health(true, 1, false, 0, 0), None);
    assert_eq!(health(false, 0, true, 1, 1), Some(DegradedReason::TargetInstanceChanged));
    assert_eq!(health(true, 0, true, 1, 1), Some(DegradedReason::TargetWindowUnavailable));
    assert_eq!(health(true, 2, true, 1, 1).map(|r| r.as_str()), Some("uia_permission_denied"));
    assert_eq!(health(true, 2, false, 1, 1), Some(DegradedReason::UiaEventQueueOverflow));
    assert_eq!(health(true, 2, false, 0, 3).map(|r| r.as_str()), Some("observation_queue_overflow"));
    assert_eq!(scan_length(-5), 0);
    assert_eq!(scan_length(10), 10);
    assert_eq!(scan_length(100_000), 4096);
}

#[test]
fn worker_lifecycle_requires_activation_and_monotonic_generations() {
    let mut worker = WorkerLifecycle::new();
    assert_eq!(worker.update_generation(5), Err(WorkerFault::NotActive));
    assert_eq!(worker.check_activation(), Ok(()));
    worker.activated(3, 10);
    assert_eq!(worker.check_activation().map_err(|f| f.as_str()), Err("worker_already_active"));
    assert_eq!(worker.update_generation(10), Err(WorkerFault::GenerationNotMonotonic));
    assert_eq!(worker.update_generation(11), Ok(11));
    assert_eq!(worker.update_generation(11), Err(WorkerFault::GenerationNotMonotonic));
    assert_eq!(worker.control_capture(true), Ok(()));
    assert!(!worker.query_pumps());
    assert_eq!(worker.deactivate(), Ok(3));
    assert_eq!(worker.deactivate(), Err(WorkerFault::NotActive));
    assert_eq!(worker.require_active(), Err(WorkerFault::NotActive));
}

#[test]
fn element_keys_are_stable_text() {
    assert_eq!(runtime_id_key(&[42, -7, 0]).as_deref(), Some("rid:42.-7.0"));
    assert_eq!(runtime_id_key(&[i32::MIN]).as_deref(), Some("rid:-2147483648"));
    assert_eq!(runtime_id_key(&[]), None);
    assert_eq!(fallback_element_key(-1, 50000, "okButton", "Button"), "fallback:-1:50000:okButton:Button");
    assert_eq!(fallback_element_key(i64::MIN, 0, "", ""), "fallback:-9223372036854775808:0::");
    assert_eq!(WindowsUiaAcquisitionWorker.acquire(), Err(AcquisitionError::ProviderUnavailable));
}

fn class_in(image: usize, class: usize) -> ClassLookup {
    let mut per_image = vec![None; 3];
    per_image[image - 1] = Some(class);
    ClassLookup { per_image }
}

fn text_class(image: usize, class: usize) -> TextClassLookup {
    TextClassLookup { class: class_in(image, class), text_field: Some(class + 100), text_setter: Some(class + 200) }
}

fn absent() -> TextClassLookup {
    TextClassLookup { class: ClassLookup { per_image: vec![None; 3] }, text_field: None, text_setter: None }
}

#[test]
fn finds_tmp_and_ugui_fields_across_different_images() {
    let targets = locate_standard_ui(&text_class(2, 30), &text_class(3, 31), true).expect("standard UI metadata");
    assert_eq!(targets.len(), 2);
    assert_eq!(targets[0].kind, StandardUiKind::TextMeshPro);
    assert_eq!(targets[0].text_field, 130);
    assert_eq!(targets[1].kind, StandardUiKind::UGui);
    assert_eq!(targets[1].class, 31);
}

#[test]
fn accepts_one_standard_ui_family_but_rejects_none_or_stripped_field() {
    let targets = locate_standard_ui(&text_class(2, 30), &absent(), true).expect("TMP metadata");
    assert_eq!(targets.len(), 1);
    assert_eq!(targets[0].kind, StandardUiKind::TextMeshPro);
    assert_eq!(locate_standard_ui(&absent(), &absent(), false), Err(MetadataError::StandardUiMissing));
    let stripped_field = TextClassLookup { text_field: None, ..text_class(2, 30) };
    assert_eq!(locate_standard_ui(&stripped_field, &absent(), false), Err(MetadataError::StandardUiMissing));
    let stripped_setter = TextClassLookup { text_setter: None, ..text_class(2, 30) };
    assert!(locate_standard_ui(&stripped_setter, &absent(), false).is_ok());
    assert_eq!(locate_standard_ui(&stripped_setter, &absent(), true), Err(MetadataError::StandardUiMissing));
}

#[test]
fn exact_methods_match_name_and_parameters_in_order() {
    let string = MethodParam { class: 7, by_ref: false };
    let string_out = MethodParam { class: 7, by_ref: true };
    let candidates = vec![
        MethodCandidate { method: 1, name_matches: false, params: vec![Some(string)] },
        MethodCandidate { method: 2, name_matches: true, params: vec![Some(string_out)] },
        MethodCandidate { method: 3, name_matches: true, params: vec![None] },
        MethodCandidate { method: 4, name_matches: true, params: vec![Some(string)] },
        MethodCandidate { method: 5, name_matches: true, params: vec![Some(string)] },
    ];
    assert_eq!(exact_method(&candidates, &[string]), Some(4));
    assert_eq!(exact_method(&candidates, &[string_out]), Some(2));
    assert_eq!(exact_method(&candidates, &[]), None);
    assert_eq!(class_across_images(&ClassLookup { per_image: vec![None, Some(9), Some(8)] }), Some(9));
}

fn lookups() -> FontLookups {
    FontLookups {
        string_class: class_in(1, 10),
        boolean_class: class_in(1, 11),
        int32_class: class_in(1, 12),
        font_class: class_in(2, 13),
        material_class: class_in(2, 14),
        tmp_font_asset_class: class_in(3, 15),
        glyph_render_mode_class: class_in(2, 16),
        font_string_ctor: None,
        font_default_ctor: Some(20),
        font_internal_create: Some(21),
        tmp_create_family_style: None,
        tmp_create_file_path: Some(22),
        tmp_create_unity_font: Some(23),
        tmp_try_add_characters: Some(24),
        targets: vec![
            TargetFontLookup { get_font: Some(30), set_font: Some(31), get_shared_material: Some(32), set_shared_material: Some(33) },
            TargetFontLookup { get_font: Some(40), set_font: Some(41), get_shared_material: None, set_shared_material: None },
        ],
    }
}

#[test]
fn font_metadata_prefers_portable_factories_and_requires_every_accessor() {
    let targets = locate_standard_ui(&text_class(2, 30), &text_class(3, 31), false).unwrap();
    let metadata = locate_font_metadata(&lookups(), &targets).unwrap();
    assert_eq!(metadata.font_class, 13);
    assert_eq!(metadata.font_factory, FontFactory::InternalCreateFont { default_constructor: 20, factory: 21 });
    let tmp = metadata.tmp_factory.unwrap();
    assert_eq!(tmp.class, 15);
    assert_eq!(tmp.create_font_asset, TmpFontAssetFactory::FilePath(22));
    assert_eq!(metadata.targets[0].shared_material_setter, Some(33));
    assert_eq!(metadata.targets[1].shared_material_getter, None);

    let no_glyph_mode = FontLookups { glyph_render_mode_class: ClassLookup { per_image: vec![None; 3] }, ..lookups() };
    let metadata = locate_font_metadata(&no_glyph_mode, &targets).unwrap();
    assert_eq!(metadata.tmp_factory.unwrap().create_font_asset, TmpFontAssetFactory::UnityFont(23));

    let mut stripped = lookups();
    stripped.targets[0].set_shared_material = None;
    assert_eq!(locate_font_metadata(&stripped, &targets), Err(MetadataError::FontSubstitutionMissing));

    let ugui_only = locate_standard_ui(&absent(), &text_class(3, 31), false).unwrap();
    let mut ugui_lookups = lookups();
    ugui_lookups.targets.remove(0);
    ugui_lookups.tmp_try_add_characters = None;
    let metadata = locate_font_metadata(&ugui_lookups, &ugui_only).unwrap();
    assert!(metadata.tmp_factory.is_none());
    assert_eq!(metadata.targets.len(), 1);
}

#[test]
fn snapshot_builders_overwrite_and_commute() {
    let s = UiaElementSnapshot::new("edit");
    assert_eq!(s.clone().with_name("a").with_name("b"), s.clone().with_name("b"));
    assert_eq!(s.clone().with_name("a").with_text("x"), s.clone().with_text("x").with_name("a"));
    assert_eq!(s.clone().with_name("a").with_value("x"), s.clone().with_value("x").with_name("a"));
    assert_eq!(s.clone().with_name("a").password(true), s.password(true).with_name("a"));
}
