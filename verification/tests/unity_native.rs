use glyphshift_adapters::font_names::{normalize_font_registry_label, unity_font_name};
use glyphshift_adapters::main_thread::{single_window_thread, DispatchSlots, HookRegistration, WaitStep, WindowCandidate};
use glyphshift_adapters::observer_loop::{
    sleep_steps_per_poll, trace_event_is_allowed, ObserverAction, ObserverLoopState, MAX_EVENT_BYTES, POLL_INTERVAL_MS,
    SLEEP_STEP_MS,
};
use glyphshift_adapters::runtime_gate::{HostPlatform, Il2CppRuntimeGate, ObservedRuntime, RuntimeGateError, REQUIRED_EXPORT_COUNT, required_export_name};
use glyphshift_adapters::session_slot::SessionSlot;
use glyphshift_adapters::unity_session::{
    host_decision, initial_snapshot_step, needs_restore, pass_pumps_writeback, snapshot_event, status_after_pass, snapshot_observations_accepted,
    status_after_collection, take_for_clear, writeback_outcome, InitialWait, SnapshotEvent, SnapshotStatus,
    WritebackAdoption,
};

#[test]
fn registry_labels_match_user_facing_font_families() {
    assert_eq!(
        normalize_font_registry_label("Microsoft YaHei & Microsoft YaHei UI (TrueType)"),
        "Microsoft YaHei & Microsoft YaHei UI"
    );
    assert_eq!(normalize_font_registry_label("@Synthetic Sans (OpenType)"), "Synthetic Sans");
}

#[test]
fn composite_windows_font_labels_choose_a_concrete_unity_family() {
    assert_eq!(unity_font_name("Microsoft YaHei & Microsoft YaHei UI"), "Microsoft YaHei");
    assert_eq!(unity_font_name("Noto Sans CJK SC"), "Noto Sans CJK SC");
}

#[test]
fn registry_labels_without_a_format_suffix_are_only_trimmed() {
    assert_eq!(normalize_font_registry_label("  Arial  "), "Arial");
    assert_eq!(normalize_font_registry_label("Arial (Bold"), "Arial (Bold");
    assert_eq!(normalize_font_registry_label("@@Mono (OpenType)"), "Mono");
    assert_eq!(unity_font_name("  A & B & C "), "A");
}

#[test]
fn bounded_wait_times_out_without_a_matching_gui_callback() {
    let mut slots: DispatchSlots<u8> = DispatchSlots::new();
    let generation = usize::MAX - 1;
    slots.reset_completion(generation);
    assert_eq!(slots.wait_step(generation, false), WaitStep::Finished(None));
}

#[test]
fn completed_dispatch_reports_its_result_and_stale_reports_are_ignored() {
    let mut slots: DispatchSlots<&str> = DispatchSlots::new();
    let g = slots.next_generation();
    assert_eq!(g, 1);
    slots.reset_completion(g);
    assert_eq!(slots.wait_step(g, true), WaitStep::Wait);
    slots.complete(g + 1, false);
    assert_eq!(slots.wait_step(g, true), WaitStep::Wait);
    slots.complete(g, true);
    assert_eq!(slots.wait_step(g, true), WaitStep::Finished(Some(true)));
    assert_eq!(slots.after_wait(g + 7, false), WaitStep::Finished(None));
}

#[test]
fn dispatch_message_runs_the_callback_only_on_the_hooked_thread() {
    let mut slots: DispatchSlots<&str> = DispatchSlots::new();
    let g = slots.next_generation();
    assert_eq!(slots.register_hook(HookRegistration { generation: g, thread_id: 7, handle: 42 }), None);
    slots.set_pending(g, "callback");
    let (hook, callback) = slots.on_dispatch_message(g, 7);
    assert_eq!(hook.map(|h| h.handle), Some(42));
    assert_eq!(callback, Some("callback"));
    assert_eq!(slots.on_dispatch_message(g, 7), (None, None));

    let g2 = slots.next_generation();
    slots.register_hook(HookRegistration { generation: g2, thread_id: 7, handle: 43 });
    slots.set_pending(g2, "other");
    let (hook, callback) = slots.on_dispatch_message(g2, 8);
    assert!(hook.is_some());
    assert_eq!(callback, None);
    assert_eq!(slots.take_callback(g2), None);
}

#[test]
fn accepts_many_visible_windows_only_when_they_share_one_thread() {
    let selected = single_window_thread(&[
        WindowCandidate { thread_id: 7, window: 100 },
        WindowCandidate { thread_id: 7, window: 101 },
    ])
    .expect("same GUI thread");
    assert_eq!(selected.thread_id, 7);
    assert_eq!(selected.window, 100);
}

#[test]
fn rejects_zero_or_ambiguous_window_threads() {
    assert!(single_window_thread(&[]).is_none());
    assert!(single_window_thread(&[WindowCandidate { thread_id: 0, window: 100 }]).is_none());
    assert!(single_window_thread(&[
        WindowCandidate { thread_id: 7, window: 100 },
        WindowCandidate { thread_id: 8, window: 101 },
    ])
    .is_none());
}

#[test]
fn polling_interval_is_bounded_and_interruptible() {
    assert_eq!(POLL_INTERVAL_MS, 250);
    assert_eq!(SLEEP_STEP_MS, 25);
    assert_eq!(POLL_INTERVAL_MS % SLEEP_STEP_MS, 0);
}

#[test]
fn observer_calls_then_sleeps_one_interval_and_stops_at_once() {
    let mut state = ObserverLoopState::start();
    let (action, next) = state.step(false);
    assert_eq!(action, ObserverAction::RunCallback);
    state = next;
    for _ in 0..sleep_steps_per_poll() {
        let (action, next) = state.step(false);
        assert_eq!(action, ObserverAction::Sleep);
        state = next;
    }
    assert_eq!(state.step(false).0, ObserverAction::RunCallback);
    assert_eq!(state.step(true).0, ObserverAction::Exit);
    assert_eq!(sleep_steps_per_poll(), 10);
}

#[test]
fn rejects_unbounded_or_multiline_events_before_opening_a_path() {
    assert!(!trace_event_is_allowed(""));
    assert!(!trace_event_is_allowed("line one\nline two"));
    assert!(!trace_event_is_allowed(&"x".repeat(MAX_EVENT_BYTES + 1)));
    assert!(trace_event_is_allowed("snapshot.initial.ok"));
}

fn compatible() -> ObservedRuntime {
    ObservedRuntime {
        platform: HostPlatform::WindowsX64,
        mono_loaded: false,
        il2cpp_loaded: true,
        export_addresses: (0..REQUIRED_EXPORT_COUNT).map(|i| Some(0x1000 + i)).collect(),
    }
}

#[test]
fn accepts_complete_loaded_il2cpp_runtime() {
    let gate = Il2CppRuntimeGate::inspect_current_process(&compatible()).expect("complete gate");
    assert_eq!(gate.resolved_export_count(), REQUIRED_EXPORT_COUNT);
    assert_eq!(gate.address("il2cpp_field_get_value"), 0x1005);
}

#[test]
fn rejects_mono_before_considering_il2cpp() {
    let runtime = ObservedRuntime { mono_loaded: true, ..compatible() };
    assert_eq!(Il2CppRuntimeGate::inspect_current_process(&runtime), Err(RuntimeGateError::MonoBackend));
}

#[test]
fn rejects_missing_runtime_and_export_with_stable_reasons() {
    let runtime = ObservedRuntime { il2cpp_loaded: false, ..compatible() };
    assert_eq!(
        Il2CppRuntimeGate::inspect_current_process(&runtime),
        Err(RuntimeGateError::Il2CppRuntimeUnavailable)
    );

    let mut runtime = compatible();
    let index = (0..REQUIRED_EXPORT_COUNT)
        .position(|i| required_export_name(i).map(|n| format!("{n}\0")) == Some("il2cpp_field_get_value\0".to_string()))
        .unwrap();
    runtime.export_addresses[index] = None;
    assert_eq!(
        Il2CppRuntimeGate::inspect_current_process(&runtime),
        Err(RuntimeGateError::MissingExport("il2cpp_field_get_value"))
    );
}

#[test]
fn rejects_other_architecture_and_platform() {
    let runtime = ObservedRuntime { platform: HostPlatform::WindowsOther, ..compatible() };
    assert_eq!(
        Il2CppRuntimeGate::inspect_current_process(&runtime),
        Err(RuntimeGateError::UnsupportedArchitecture)
    );
    let runtime = ObservedRuntime { platform: HostPlatform::Other, ..compatible() };
    assert_eq!(Il2CppRuntimeGate::inspect_current_process(&runtime), Err(RuntimeGateError::UnsupportedPlatform));
}

#[test]
fn the_first_missing_export_is_reported_and_short_lists_are_missing_exports() {
    let mut runtime = compatible();
    runtime.export_addresses.truncate(3);
    assert_eq!(
        Il2CppRuntimeGate::inspect_current_process(&runtime),
        Err(RuntimeGateError::MissingExport("il2cpp_class_from_name"))
    );
    assert_eq!(required_export_name(REQUIRED_EXPORT_COUNT), None);
}

#[test]
fn lifecycle_gate_keeps_failed_reentrant_stop_active_and_retryable() {
    let mut slot: SessionSlot<u8> = SessionSlot { in_flight: true, ..SessionSlot::new() };
    assert!(!slot.try_begin_deactivation());
    assert!(slot.in_flight);
    assert!(!slot.deactivating);
    assert!(slot.deactivate_requested);

    slot.in_flight = false;
    slot.deactivate_requested = false;
    assert!(slot.try_begin_deactivation());
    assert!(slot.deactivating);
}

#[test]
fn lifecycle_gate_rejects_overlapping_deactivation() {
    let mut slot: SessionSlot<u8> = SessionSlot::new();
    assert!(slot.try_begin_deactivation());
    assert!(!slot.try_begin_deactivation());
    assert!(slot.deactivating);
    assert!(!slot.deactivate_requested);
}

#[test]
fn one_transaction_holds_the_session_at_a_time() {
    let mut slot: SessionSlot<&str> = SessionSlot::new();
    assert_eq!(slot.install_session("session"), Ok(()));
    assert_eq!(slot.install_session("second"), Err("second"));
    let taken = slot.begin_session_transaction();
    assert_eq!(taken, Some("session"));
    assert_eq!(slot.begin_session_transaction(), None);
    assert!(!slot.try_begin_deactivation());
    assert!(slot.deactivate_requested());
    slot.finish_session_transaction(taken);
    assert!(!slot.deactivate_requested());
    assert!(slot.try_begin_deactivation());
    assert_eq!(slot.begin_session_transaction(), None);
    assert_eq!(slot.begin_deactivation_transaction(), Some("session"));
    slot.finish_session_transaction(None);
    assert_eq!(take_for_clear(&mut slot), None);
}

#[test]
fn host_answers_are_bounded_and_blank_fonts_mean_no_substitution() {
    let text: Vec<u16> = "打开..".encode_utf16().collect();
    let font: Vec<u16> = " Noto Sans ".encode_utf16().collect();
    let d = host_decision(true, true, true, 7, 2, 11, &text, &font).unwrap();
    assert_eq!(d.generation, 7);
    assert_eq!(d.replacement, Some("打开".encode_utf16().collect()));
    assert_eq!(d.font.as_deref(), Some("Noto Sans"));
    assert!(host_decision(false, true, true, 7, 2, 11, &text, &font).is_none());
    assert!(host_decision(true, true, false, 7, 5, 0, &text, &font).is_none());
    assert!(host_decision(true, false, true, 7, 0, 0, &text, &font).is_none());
    let blank: Vec<u16> = "   ".encode_utf16().collect();
    let d = host_decision(true, false, true, 1, 0, 3, &text, &blank).unwrap();
    assert_eq!(d.font, None);
    assert_eq!(d.replacement, None);
}

#[test]
fn snapshot_status_and_write_back_outcomes() {
    assert_eq!(status_after_collection(SnapshotStatus::Idle, Some(false), true), SnapshotStatus::Complete);
    assert_eq!(status_after_collection(SnapshotStatus::Idle, Some(false), false), SnapshotStatus::Failed);
    assert_eq!(status_after_collection(SnapshotStatus::Complete, Some(false), false), SnapshotStatus::Complete);
    assert_eq!(status_after_collection(SnapshotStatus::Idle, Some(true), true), SnapshotStatus::Idle);
    assert_eq!(status_after_collection(SnapshotStatus::Idle, None, true), SnapshotStatus::Failed);
    assert_eq!(initial_snapshot_step(SnapshotStatus::Idle, true), InitialWait::Wait);
    assert_eq!(initial_snapshot_step(SnapshotStatus::Idle, false), InitialWait::Failed);
    assert_eq!(initial_snapshot_step(SnapshotStatus::Complete, false), InitialWait::Ready);
    assert_eq!(snapshot_event(false, 0), None);
    assert_eq!(snapshot_event(false, 2), Some(SnapshotEvent::Attach));
    assert_eq!(snapshot_event(true, 0), Some(SnapshotEvent::Refresh));
    assert!(!snapshot_observations_accepted(SnapshotEvent::Attach, 0));
    assert!(snapshot_observations_accepted(SnapshotEvent::Refresh, 0));
    assert_eq!(writeback_outcome(true, false, false), (WritebackAdoption::Applied, true, false));
    assert_eq!(writeback_outcome(false, true, true), (WritebackAdoption::Restored, false, false));
    assert_eq!(writeback_outcome(false, true, false), (WritebackAdoption::RestoreAllAtStop, true, true));
    assert!(needs_restore(true, false, true, false));
    assert!(!needs_restore(false, true, true, true));
}

use glyphshift_adapters::unity_metadata::StandardUiKind;
use glyphshift_adapters::unity_objects::{Adoption, ObjectRegistry};
use glyphshift_adapters::unity_snapshot::{
    liveness_set, register_liveness_batch, SnapshotTexts, MAX_SNAPSHOT_OBJECTS, MAX_SNAPSHOT_UTF16_UNITS,
};

#[test]
fn liveness_batches_keep_live_objects_up_to_the_limit() {
    let mut objects = Vec::new();
    register_liveness_batch(&mut objects, &[0, 5, 0, 7]);
    assert_eq!(objects, vec![5, 7]);
    let mut nearly_full = vec![1usize; MAX_SNAPSHOT_OBJECTS - 1];
    register_liveness_batch(&mut nearly_full, &[9, 10, 11]);
    assert_eq!(nearly_full.len(), MAX_SNAPSHOT_OBJECTS);
    assert_eq!(nearly_full[MAX_SNAPSHOT_OBJECTS - 1], 9);
    register_liveness_batch(&mut nearly_full, &[12]);
    assert_eq!(nearly_full.len(), MAX_SNAPSHOT_OBJECTS);
    assert_eq!(liveness_set(&vec![5, 3, 5, 1, 3]), vec![1, 3, 5]);
    assert_eq!(liveness_set(&vec![]), Vec::<usize>::new());
}

#[test]
fn snapshot_texts_come_back_as_they_were_read() {
    let mut texts = SnapshotTexts::new();
    let hello: Vec<u16> = "你好".encode_utf16().collect();
    assert_eq!(texts.admitted_length(-1, 100), None);
    assert_eq!(texts.admitted_length(101, 100), None);
    assert_eq!(texts.admitted_length(2, 100), Some(2));
    assert!(texts.push_text(0x1000, StandardUiKind::TextMeshPro, &hello));
    assert!(!texts.push_text(0, StandardUiKind::UGui, &hello));
    assert!(texts.push_text(0x2000, StandardUiKind::UGui, &[]));
    assert!(!texts.is_full());
    let captured = texts.finish();
    assert_eq!(captured.len(), 2);
    assert_eq!(captured[0].object, 0x1000);
    assert_eq!(captured[0].kind, StandardUiKind::TextMeshPro);
    assert_eq!(captured[0].units, hello);
    assert_eq!(captured[1].object, 0x2000);
    assert!(captured[1].units.is_empty());
}

#[test]
fn snapshot_texts_refuse_units_past_the_buffer() {
    let mut texts = SnapshotTexts::new();
    let big = vec![b'x' as u16; MAX_SNAPSHOT_UTF16_UNITS];
    assert!(texts.push_text(1, StandardUiKind::UGui, &big));
    assert_eq!(texts.admitted_length(1, 100), None);
    assert_eq!(texts.admitted_length(0, 100), Some(0));
    assert!(!texts.push_text(2, StandardUiKind::UGui, &[1]));
    assert_eq!(texts.finish().len(), 1);
}

#[test]
fn the_registry_holds_each_object_once_by_address() {
    let mut registry = ObjectRegistry::new();
    assert_eq!(registry.adopt(0, 0x100), Adoption::Ignored);
    assert_eq!(registry.adopt(5, 0), Adoption::Released);
    assert_eq!(registry.adopt(5, 0x100), Adoption::Kept(1));
    assert_eq!(registry.adopt(6, 0x100), Adoption::Known(1));
    assert_eq!(registry.adopt(7, 0x200), Adoption::Kept(2));
    assert_eq!(registry.held(), vec![(1, 5), (2, 7)]);
    assert_eq!(registry.handle_for(2), Some(7));
    assert_eq!(registry.handle_for(3), None);
    // The first object was collected; the second moved.
    assert_eq!(registry.complete_refresh(&[0, 0x300]), vec![(1, 5)]);
    assert_eq!(registry.held(), vec![(2, 7)]);
    assert_eq!(registry.adopt(8, 0x300), Adoption::Known(2));
    assert_eq!(registry.adopt(9, 0x100), Adoption::Kept(3));
    assert_eq!(registry.clear(), vec![7, 9]);
    assert_eq!(registry.held(), vec![]);
    assert_eq!(registry.adopt(10, 0x100), Adoption::Kept(4));
}

use glyphshift_adapters::unity_fonts::{font_resource_key, missing_tmp_glyphs};

#[test]
fn font_resources_are_keyed_by_trimmed_lower_case_family() {
    assert_eq!(font_resource_key("  Noto Sans CJK SC "), "noto sans cjk sc");
    assert_eq!(font_resource_key("MS Gothic"), font_resource_key("ms gothic\t"));
    assert_eq!(font_resource_key("微软雅黑"), "微软雅黑");
    assert_eq!(font_resource_key("   "), "");
}

#[test]
fn missing_glyphs_are_the_new_characters_once_in_order() {
    let required: Vec<u16> = "好你好a😀".encode_utf16().collect();
    assert_eq!(missing_tmp_glyphs(&required, &vec!['a']), Some(vec!['你', '好', '😀']));
    assert_eq!(missing_tmp_glyphs(&required, &vec!['a', '你', '好', '😀']), Some(vec![]));
    assert_eq!(missing_tmp_glyphs(&[0xd800], &vec![]), None);
}

use glyphshift_adapters::unity_metadata::TextTarget;
use glyphshift_adapters::unity_writeback::{plan_writes, prepare_text_call, WritebackError};

#[test]
fn writes_skip_collected_objects_and_need_an_attached_thread() {
    assert_eq!(plan_writes(true, &[Some(101), None, Some(103)]), Ok(vec![(0, 101), (2, 103)]));
    assert_eq!(plan_writes(false, &[Some(101)]), Err(WritebackError::ThreadUnavailable));
    assert_eq!(plan_writes(true, &[]), Ok(vec![]));
}

#[test]
fn text_calls_need_a_setter_and_an_i32_length() {
    let targets = [
        TextTarget { kind: StandardUiKind::TextMeshPro, class: 1, text_field: 2, text_setter: Some(7) },
        TextTarget { kind: StandardUiKind::UGui, class: 3, text_field: 4, text_setter: None },
    ];
    assert_eq!(prepare_text_call(&targets, StandardUiKind::TextMeshPro, 2), Ok((7, 2)));
    assert_eq!(prepare_text_call(&targets, StandardUiKind::UGui, 2), Err(WritebackError::MissingSetter));
    assert_eq!(prepare_text_call(&targets[..1], StandardUiKind::UGui, 2), Err(WritebackError::MissingSetter));
    assert_eq!(
        prepare_text_call(&targets, StandardUiKind::TextMeshPro, i32::MAX as usize + 1),
        Err(WritebackError::InvalidStringLength)
    );
}

#[test]
fn observer_pass_pumps_write_back_and_settles_the_status() {
    assert!(pass_pumps_writeback(true, Some(false), true, false));
    assert!(!pass_pumps_writeback(true, Some(false), false, true));
    assert!(!pass_pumps_writeback(true, Some(true), true, true));
    assert!(pass_pumps_writeback(true, None, false, true));
    assert!(!pass_pumps_writeback(true, None, true, false));
    assert!(!pass_pumps_writeback(false, None, true, true));
    assert_eq!(status_after_pass(SnapshotStatus::Idle, true, Some(false), false, false), SnapshotStatus::Complete);
    assert_eq!(status_after_pass(SnapshotStatus::Idle, true, Some(false), true, false), SnapshotStatus::Failed);
    assert_eq!(status_after_pass(SnapshotStatus::Complete, true, Some(false), true, false), SnapshotStatus::Complete);
    assert_eq!(status_after_pass(SnapshotStatus::Idle, true, None, true, true), SnapshotStatus::Failed);
    assert_eq!(status_after_pass(SnapshotStatus::Idle, false, None, true, true), SnapshotStatus::Idle);
    assert_eq!(status_after_pass(SnapshotStatus::Idle, true, Some(true), true, true), SnapshotStatus::Idle);
}
