use dglab_audio_link::app::gui::{
    DebugSend, GuiModel, AUTO_SPEAKER_KEY, REPAINT_ACTIVE_MS, REPAINT_IDLE_MS, REPAINT_RUNNING_MS,
};
use dglab_audio_link::app::i18n::{detect_system_language, language_for_locale, tr, UiLanguage};
use dglab_audio_link::app::logs::GuiLogLevel;
use dglab_audio_link::app::panels::{
    app_status_text, audio_status_text, band_help_text, band_title_text, log_counts_text,
    scene_summary_text, slider_note_text, strength_plot_max, strength_report_text,
};
use dglab_audio_link::app::qr::{build_qr_image, render_qr};
use dglab_audio_link::app::scenes::{FactorySceneId, SavedScene, SceneConfig};
use dglab_audio_link::app::settings::{PersistedSettings, SETTINGS_SCHEMA_VERSION};
use dglab_audio_link::app::state::AppState;
use dglab_audio_link::dglab::pairing::{build_qr_payload, parse_control_ws_url};
use dglab_audio_link::dglab::protocol::{StrengthControlMode, StrengthReport};
use dglab_audio_link::level::Level;
use dglab_audio_link::pipeline::engine::EngineSnapshot;
use dglab_audio_link::seconds::Seconds;
use dglab_audio_link::types::{
    AutoPulseMode, BandDriveMode, DglabChannel, StrengthRange, WaveformPattern, WaveformPatternMode,
};

fn level(x: f32) -> Level {
    Level::from_bits(x.to_bits())
}

fn state() -> AppState {
    AppState::new("ws://10.0.0.1:28846/abc".to_owned())
}

fn window() -> GuiModel {
    GuiModel::new(state(), GuiLogLevel::Info)
}

fn report() -> StrengthReport {
    StrengthReport { a_strength: 20, b_strength: 0, a_soft_limit: 60, b_soft_limit: 90 }
}

#[test]
fn texts_follow_the_language() {
    assert_eq!(UiLanguage::En.label(), "English");
    assert_eq!(UiLanguage::ZhCn.app_title(), "DG-Lab 音频联动");
    assert_eq!(UiLanguage::all(), [UiLanguage::En, UiLanguage::ZhCn]);
    assert_eq!(tr(UiLanguage::ZhCn, "a", "b"), "b");
    assert_eq!(language_for_locale(Some("ZH-tw")), UiLanguage::ZhCn);
    assert_eq!(language_for_locale(Some("x-Hans")), UiLanguage::ZhCn);
    assert_eq!(language_for_locale(Some("de-DE")), UiLanguage::En);
    assert_eq!(language_for_locale(None), UiLanguage::En);
    assert!(UiLanguage::all().contains(&detect_system_language()));
}

#[test]
fn a_new_state_has_its_defaults() {
    let state = state();
    assert_eq!(state.websocket_url, "ws://10.0.0.1:28846/abc");
    assert_eq!(state.strength_range_a, StrengthRange::new(10, 160));
    assert_eq!(state.debug_strength_value, 50);
    assert_eq!(state.waveform_contrast.bits, level(1.8).bits);
    assert_eq!(state.smooth_strength_factor.bits, level(0.70).bits);
    assert!(state.auto_limit_with_app_soft_limit && state.smooth_strength_enabled);
    assert_eq!(state.analysis_frame_size, 1024);
    assert_eq!(state.saved_scenes.len(), 4);
}

#[test]
fn the_address_gets_new_hosts_and_sessions() {
    let mut state = state();
    assert!(state.refresh_lan_ws_url(Some("192.168.0.9")));
    assert_eq!(state.websocket_url, "ws://192.168.0.9:28846/abc");
    assert!(!state.refresh_lan_ws_url(None));
    assert_eq!(state.websocket_url, "ws://127.0.0.1:28846/abc");
    state.rotate_session_id(None);
    let parsed = parse_control_ws_url(&state.websocket_url).expect("must parse");
    assert_ne!(parsed.session_id, "abc");
    assert_eq!(parsed.session_id.len(), 36);
}

#[test]
fn limits_count_only_where_they_should() {
    let mut state = state();
    assert_eq!(state.app_soft_limit_for_channel(DglabChannel::A), None);
    assert_eq!(state.effective_strength_slider_max_for_channel(DglabChannel::A), 200);
    state.app_strength_report = Some(report());
    assert_eq!(state.app_soft_limit_for_channel(DglabChannel::B), Some(90));
    assert_eq!(state.app_current_strength_for_channel(DglabChannel::A), Some(20));
    assert_eq!(state.effective_debug_strength_slider_max(DglabChannel::A), 60);
    state.auto_limit_with_app_soft_limit = false;
    assert_eq!(state.effective_strength_slider_max_for_channel(DglabChannel::B), 200);
    state.analysis_frame_size = 7;
    assert_eq!(state.normalized_analysis_frame_size(), 1024);
    state.waveform_contrast = level(0.2);
    assert_eq!(state.normalized_waveform_contrast().bits, level(1.0).bits);
    state.smooth_strength_factor = level(3.0);
    assert_eq!(state.normalized_smooth_strength_factor().bits, level(1.0).bits);
}

#[test]
fn scenes_are_kept_and_brought_back() {
    let mut window = window();
    window.state.strength_range_a = StrengthRange::new(90, 30);
    window.state.set_error("old".to_owned());
    window.save_scene_to_slot(2);
    assert_eq!(window.scene_name_drafts[2], "Scene 3");
    assert_eq!(window.state.last_error, None);
    window.state.strength_range_a = StrengthRange::new(0, 1);
    window.state.band_drive_mode = BandDriveMode::Onset;
    window.scene_name_drafts[2] = "other".to_owned();
    window.load_scene_from_slot(2);
    assert_eq!(window.state.strength_range_a, StrengthRange::new(30, 90));
    assert_eq!(window.state.band_drive_mode, BandDriveMode::Energy);
    assert_eq!(window.scene_name_drafts[2], "Scene 3");
    window.scene_name_drafts[2] = "  mine ".to_owned();
    window.state.language = UiLanguage::ZhCn;
    window.save_scene_to_slot(2);
    assert_eq!(window.state.saved_scenes[2].as_ref().map(|s| s.name.as_str()), Some("mine"));
    window.clear_scene_slot(2);
    assert!(window.state.saved_scenes[2].is_none());
    assert_eq!(window.scene_name_drafts[2], "");
    window.save_scene_to_slot(2);
    assert_eq!(window.scene_name_drafts[2], "场景 3");
    window.load_scene_from_slot(0);
    window.save_scene_to_slot(9);
    window.clear_scene_slot(9);
    window.load_scene_from_slot(9);
    assert_eq!(window.state.saved_scenes.iter().flatten().count(), 1);
}

#[test]
fn factory_scenes_leave_the_strengths_alone() {
    let mut window = window();
    window.apply_factory_scene(FactorySceneId::EdmDrop);
    assert_eq!(window.state.band_drive_mode, BandDriveMode::Onset);
    assert_eq!(window.state.waveform_pattern, WaveformPattern::Punch);
    assert_eq!(window.state.strength_range_a, StrengthRange::new(10, 160));
    assert_eq!(window.state.strength_range_b, StrengthRange::new(10, 160));
}

fn sent(window: &GuiModel) -> (String, Option<String>) {
    match window.debug_strength_message() {
        DebugSend::Send { message, note } => (message, note),
        DebugSend::Skip { .. } => panic!("must send"),
    }
}

#[test]
fn a_set_strength_is_held_to_the_limit() {
    let mut window = window();
    assert_eq!(
        sent(&window),
        (
            "strength-1+2+50".to_owned(),
            Some("app soft limit unknown; no clamp applied".to_owned())
        )
    );
    window.state.app_strength_report = Some(report());
    assert_eq!(sent(&window), ("strength-1+2+50".to_owned(), None));
    window.state.debug_strength_value = 80;
    assert_eq!(
        sent(&window),
        (
            "strength-1+2+60".to_owned(),
            Some("clamped to app soft limit (60) for channel A".to_owned())
        )
    );
    window.state.auto_limit_with_app_soft_limit = false;
    assert_eq!(sent(&window), ("strength-1+2+80".to_owned(), None));
}

#[test]
fn an_increase_is_held_to_what_is_left() {
    let mut window = window();
    window.state.debug_strength_mode = StrengthControlMode::Increase;
    assert_eq!(sent(&window), ("strength-1+1+50".to_owned(), None));
    window.state.app_strength_report = Some(report());
    assert_eq!(
        sent(&window),
        (
            "strength-1+1+40".to_owned(),
            Some("increase clamped to 40 (current, 20, soft, 60)".to_owned())
        )
    );
    window.state.app_strength_report =
        Some(StrengthReport { a_strength: 60, ..report() });
    match window.debug_strength_message() {
        DebugSend::Skip { error, action } => {
            assert_eq!(error, "channel A already at soft limit 60，increase skipped");
            assert_eq!(action, "send skipped by local guard");
            window.message_skipped(error, action);
        }
        other => panic!("unexpected {other:?}"),
    }
    assert_eq!(
        window.state.last_protocol_action.as_deref(),
        Some("send skipped by local guard")
    );
}

#[test]
fn a_decrease_is_held_to_what_is_there() {
    let mut window = window();
    window.state.debug_strength_mode = StrengthControlMode::Decrease;
    assert_eq!(sent(&window), ("strength-1+0+50".to_owned(), None));
    window.state.app_strength_report = Some(report());
    assert_eq!(
        sent(&window),
        (
            "strength-1+0+20".to_owned(),
            Some("decrease clamped to current strength 20".to_owned())
        )
    );
}

#[test]
fn sends_are_shown() {
    let mut window = window();
    window.message_sent("clear-1", None, Ok(()));
    assert_eq!(window.state.last_protocol_action.as_deref(), Some("sent clear-1"));
    window.message_sent("m", Some("n"), Ok(()));
    assert_eq!(window.state.last_protocol_action.as_deref(), Some("sent m (n)"));
    window.message_sent("m", None, Err("gone"));
    assert_eq!(window.state.last_error.as_deref(), Some("send failed: gone"));
    assert_eq!(window.state.last_protocol_action.as_deref(), Some("send failed: m"));
}

#[test]
fn pulses_by_hand_are_checked() {
    let mut window = window();
    let (message, note) = window.debug_pulse_message().expect("must build");
    assert!(message.starts_with("pulse-A:[\"0A0A0A0A0A0A0A0A\""));
    assert_eq!(note, None);
    window.state.debug_pulse_channel = DglabChannel::B;
    window.state.app_strength_report = Some(report());
    window.state.debug_pulse_values = "0b0a0a0a64000000".to_owned();
    let (message, note) = window.debug_pulse_message().expect("must build");
    assert_eq!(message, "pulse-B:[\"0B0A0A0A64000000\"]");
    assert_eq!(
        note.as_deref(),
        Some("channel strength is currently 0; pulse can be queued but output may be silent")
    );
    window.state.debug_pulse_values = " ".to_owned();
    assert!(window.debug_pulse_message().is_err());
}

fn sync(window: &mut GuiModel, snapshot: EngineSnapshot, now: f64) {
    let elapsed = window
        .history
        .points
        .iter()
        .map(|p| Seconds::from_bits((now - f64::from_bits(p.at.bits)).to_bits()))
        .collect();
    window.sync_engine_snapshot(snapshot, Seconds::from_bits(now.to_bits()), &elapsed);
}

#[test]
fn a_snapshot_is_taken_over() {
    let mut window = window();
    let mut snapshot = EngineSnapshot::default();
    snapshot.app_bound = true;
    snapshot.output_strengths = [3, 4];
    snapshot.last_server_info = Some("info".to_owned());
    sync(&mut window, snapshot.clone(), 0.001);
    assert!(window.state.app_bound);
    assert_eq!(window.state.output_strengths, [3, 4]);
    assert_eq!(window.state.strength_range_a.max, 160);
    assert_eq!(window.history.points.len(), 1);
    snapshot.latest_strength = Some(report());
    sync(&mut window, snapshot.clone(), 0.3);
    assert_eq!(window.state.strength_range_a, StrengthRange::new(10, 60));
    assert_eq!(window.state.strength_range_b, StrengthRange::new(10, 90));
    assert_eq!(window.state.debug_strength_value, 50);
    assert_eq!(window.history.points.len(), 2);
    snapshot.latest_strength = None;
    sync(&mut window, snapshot, 0.31);
    assert_eq!(window.state.app_strength_report, Some(report()));
    assert_eq!(window.history.points.len(), 2);
}

#[test]
fn pipeline_settings_are_in_range() {
    let mut window = window();
    window.state.waveform_contrast = level(10.0);
    window.state.selected_output_device = Some("S".to_owned());
    window.state.analysis_frame_size = 2048;
    let settings = window.pipeline_settings();
    assert_eq!(settings.waveform_contrast.bits, level(4.0).bits);
    assert_eq!(settings.analysis_frame_size, 2048);
    assert_eq!(settings.pulse_items_per_message, 1);
    assert_eq!(settings.strength_ranges[1], StrengthRange::new(10, 160));
    assert_eq!(settings.preferred_output_device_name.as_deref(), Some("S"));
    assert!(settings.respect_app_soft_limit);
}

#[test]
fn speakers_are_listed_and_chosen() {
    let mut window = window();
    let names = || Ok(vec!["A".to_owned(), "B".to_owned()]);
    window.refresh_output_device_list(names(), Some("C"));
    assert_eq!(window.state.selected_output_device, None);
    window.refresh_output_device_list(names(), Some("B"));
    assert_eq!(window.state.selected_output_device.as_deref(), Some("B"));
    window.state.selected_output_device = Some("A".to_owned());
    window.refresh_output_device_list(names(), Some("B"));
    assert_eq!(window.state.selected_output_device.as_deref(), Some("A"));
    window.refresh_output_device_list(Err("e".to_owned()), None);
    assert!(window.state.available_output_devices.is_empty());
    assert_eq!(
        window.state.last_error.as_deref(),
        Some("failed to enumerate speakers: e")
    );
    assert_eq!(GuiModel::speaker_for_key(AUTO_SPEAKER_KEY), None);
    window.select_speaker(GuiModel::speaker_for_key("A"));
    assert_eq!(window.state.last_protocol_action, None);
    window.select_speaker(GuiModel::speaker_for_key("B"));
    assert_eq!(
        window.state.last_protocol_action.as_deref(),
        Some("speaker source switched to B")
    );
    window.select_speaker(None);
    assert_eq!(
        window.state.last_protocol_action.as_deref(),
        Some("speaker source switched to default")
    );
}

#[test]
fn outcomes_are_shown() {
    let mut window = window();
    window.engine_started(Ok(()), false);
    assert!(window.state.running);
    window.engine_started(Err("e"), false);
    assert_eq!(window.state.last_error.as_deref(), Some("start failed: e"));
    window.engine_started(Err("e"), true);
    assert_eq!(
        window.state.last_error.as_deref(),
        Some("failed to restart ws server: e")
    );
    assert!(!window.state.running);
    assert!(!window.changes_log_level(GuiLogLevel::Info));
    assert!(window.changes_log_level(GuiLogLevel::Debug));
    window.log_level_changed(GuiLogLevel::Debug, Ok(()));
    assert_eq!(window.log_level, GuiLogLevel::Debug);
    window.log_level_changed(GuiLogLevel::Warn, Err("e"));
    assert_eq!(window.log_level, GuiLogLevel::Debug);
    assert_eq!(
        window.state.last_error.as_deref(),
        Some("failed to change log level: e")
    );
    window.log_exported("/x", Ok(()));
    assert_eq!(window.state.last_protocol_action.as_deref(), Some("log exported to /x"));
    window.log_exported("/x", Err("e"));
    assert_eq!(
        window.state.last_error.as_deref(),
        Some("failed to write log file `/x`: e")
    );
}

#[test]
fn frames_are_drawn_as_often_as_needed() {
    let mut window = window();
    assert_eq!(window.repaint_interval_ms(false), REPAINT_IDLE_MS);
    assert_eq!(window.repaint_interval_ms(true), REPAINT_RUNNING_MS);
    window.state.app_bound = true;
    assert_eq!(window.repaint_interval_ms(false), REPAINT_ACTIVE_MS);
    assert!(window.collapse_pairing_now());
    window.end_frame(true);
    assert!(!window.collapse_pairing_now());
    assert!(window.state.running);
}

#[test]
fn panels_have_their_texts() {
    let mut state = state();
    assert_eq!(app_status_text(&state), "App status: not connected");
    state.app_connected = true;
    assert_eq!(app_status_text(&state), "App status: connected, waiting bind");
    state.app_bound = true;
    assert_eq!(app_status_text(&state), "App status: bound (app_id=?)");
    state.app_id = Some("x".to_owned());
    assert_eq!(app_status_text(&state), "App status: bound (app_id=x)");
    assert_eq!(audio_status_text(&state), "Audio capture: stopped/unavailable");
    state.audio_capture_running = true;
    assert_eq!(audio_status_text(&state), "Audio capture: running (<unknown input device>)");
    assert_eq!(slider_note_text(&state), None);
    assert_eq!(strength_plot_max(&state), 200);
    assert_eq!(
        strength_report_text(&state),
        "No app strength report yet. Send/receive once after bind."
    );
    state.app_strength_report = Some(report());
    assert_eq!(strength_plot_max(&state), 90);
    assert_eq!(strength_report_text(&state), "App strength A:20 B:0 | soft A:60 B:90");
    assert_eq!(
        slider_note_text(&state).as_deref(),
        Some("Current max limited by App soft limit: A=60, B=90")
    );
    state.app_strength_report =
        Some(StrengthReport { a_soft_limit: 0, b_soft_limit: 0, ..report() });
    assert_eq!(strength_plot_max(&state), 1);
    assert_eq!(log_counts_text(UiLanguage::En, 12, 3), "Lines: 12 | Selected: 3");
    assert_eq!(band_title_text(UiLanguage::En, 0), "Band 1 · Kick / Sub");
    assert!(band_help_text(UiLanguage::En, 3).contains("(2200-12000 Hz): "));
}

#[test]
fn settings_outlast_the_program() {
    let mut before = state();
    before.language = UiLanguage::ZhCn;
    before.strength_range_b = StrengthRange::new(40, 20);
    before.selected_output_device = Some("  ".to_owned());
    let settings = PersistedSettings::from_state(&before);
    assert_eq!(settings.version, SETTINGS_SCHEMA_VERSION);
    assert_eq!(settings.strength_range_b, StrengthRange::new(20, 40));
    assert_eq!(settings.selected_output_device, None);
    let mut after = state();
    settings.apply_to_state(&mut after, level(0.5));
    assert_eq!(after.language, UiLanguage::ZhCn);
    assert_eq!(PersistedSettings::from_state(&after), settings);
}

#[test]
fn kept_scenes_and_the_frame_size_outlast_the_program() {
    let mut before = window();
    before.state.strength_range_a = StrengthRange::new(30, 90);
    before.state.band_drive_mode = BandDriveMode::Onset;
    before.scene_name_drafts[1] = " mine ".to_owned();
    before.save_scene_to_slot(1);
    before.state.analysis_frame_size = 512;
    let settings = PersistedSettings::from_state(&before.state);
    let mut state = state();
    state.last_error = Some("old".to_owned());
    settings.apply_to_state(&mut state, level(0.5));
    assert_eq!(state.analysis_frame_size, 512);
    assert_eq!(state.saved_scenes, before.state.saved_scenes);
    assert_eq!(state.websocket_url, "ws://10.0.0.1:28846/abc");
    assert_eq!(state.last_error.as_deref(), Some("old"));
    let mut after = GuiModel::new(state, GuiLogLevel::Info);
    assert_eq!(after.scene_name_drafts, ["", "mine", "", ""]);
    after.state.band_drive_mode = BandDriveMode::Energy;
    after.load_scene_from_slot(1);
    assert_eq!(after.state.strength_range_a, StrengthRange::new(30, 90));
    assert_eq!(after.state.band_drive_mode, BandDriveMode::Onset);
}

#[test]
fn kept_scenes_are_put_in_order() {
    let mut settings = PersistedSettings::default();
    assert_eq!(settings.saved_scenes, [None, None, None, None]);
    assert_eq!(settings.analysis_frame_size, 1024);
    let mut config = SceneConfig::default();
    config.strength_range_a = StrengthRange::new(300, 5);
    settings.saved_scenes = vec![None, Some(SavedScene { name: " ".to_owned(), config })];
    settings.analysis_frame_size = 7;
    let tidy = settings.sanitized(level(0.5));
    assert_eq!(tidy.analysis_frame_size, 1024);
    assert_eq!(tidy.saved_scenes.len(), 4);
    let scene = tidy.saved_scenes[1].as_ref().expect("must stay");
    assert_eq!(scene.name, "Scene 2");
    assert_eq!(scene.config.strength_range_a, StrengthRange::new(5, 200));
    assert_eq!(tidy.clone().sanitized(level(0.1)), tidy);
}

#[test]
fn older_settings_are_brought_up_to_date() {
    let mut old = PersistedSettings::default();
    old.smooth_strength_factor = level(0.2);
    old.auto_pulse_mode = AutoPulseMode::AlwaysMax;
    old.waveform_contrast = level(3.0);
    old.band_drive_mode = BandDriveMode::Onset;
    old.waveform_pattern_mode = WaveformPatternMode::Fixed;
    old.waveform_pattern = WaveformPattern::Punch;
    old.selected_output_device = Some(" S ".to_owned());
    let at = |version: u8| {
        let mut settings = old.clone();
        settings.version = version;
        settings.sanitized(level(0.8))
    };
    let one = at(1);
    assert_eq!(one.smooth_strength_factor.bits, level(0.8).bits);
    assert_eq!(one.auto_pulse_mode, AutoPulseMode::ByStrength);
    assert_eq!(one.waveform_contrast.bits, level(1.8).bits);
    assert_eq!(one.band_drive_mode, BandDriveMode::Energy);
    assert_eq!(one.waveform_pattern_mode, WaveformPatternMode::AutoMorph);
    assert_eq!(one.waveform_pattern, WaveformPattern::Smooth);
    assert_eq!(one.selected_output_device.as_deref(), Some("S"));
    assert_eq!(one.version, 7);
    let two = at(2);
    assert_eq!(two.smooth_strength_factor.bits, level(0.2).bits);
    assert_eq!(two.auto_pulse_mode, AutoPulseMode::ByStrength);
    let three = at(3);
    assert_eq!(three.auto_pulse_mode, AutoPulseMode::AlwaysMax);
    assert_eq!(three.waveform_contrast.bits, level(1.8).bits);
    let five = at(5);
    assert_eq!(five.waveform_contrast.bits, level(3.0).bits);
    assert_eq!(five.band_drive_mode, BandDriveMode::Energy);
    let six = at(6);
    assert_eq!(six.band_drive_mode, BandDriveMode::Onset);
    assert_eq!(six.waveform_pattern, WaveformPattern::Smooth);
    let seven = at(7);
    assert_eq!(seven.waveform_pattern_mode, WaveformPatternMode::Fixed);
    assert_eq!(seven.waveform_pattern, WaveformPattern::Punch);
    assert_eq!(seven.clone().sanitized(level(0.0)), seven);
}

#[test]
fn pairing_codes_are_drawn() {
    let payload = build_qr_payload("ws://10.0.0.1:28846/abc");
    let image = build_qr_image(&format!(" {payload}\n")).expect("must draw");
    let code = qrcodegen::QrCode::encode_text(&payload, qrcodegen::QrCodeEcc::Medium)
        .expect("must encode");
    let modules = code.size() as usize;
    assert_eq!(image.side, (modules + 8) * 5);
    assert_eq!(image.dark.len(), image.side * image.side);
    for y in 0..image.side {
        for x in 0..image.side {
            let module_x = (x / 5) as i32 - 4;
            let module_y = (y / 5) as i32 - 4;
            assert_eq!(image.dark[y * image.side + x], code.get_module(module_x, module_y));
        }
    }
}

#[test]
fn pairing_codes_need_a_payload_that_fits() {
    assert_eq!(build_qr_image(" \t").err().as_deref(), Some("QR payload is empty."));
    let error = build_qr_image(&"x".repeat(5000)).err().expect("must fail");
    assert!(error.starts_with("QR encode failed: "));
    assert!(error.len() > "QR encode failed: ".len());
}

#[test]
fn a_single_module_is_drawn() {
    let image = render_qr(&vec![vec![true]]);
    assert_eq!(image.side, 45);
    assert_eq!(image.dark.iter().filter(|dark| **dark).count(), 25);
    assert!(image.dark[20 * 45 + 20] && image.dark[24 * 45 + 24]);
    assert!(!image.dark[19 * 45 + 20] && !image.dark[25 * 45 + 24]);
}

#[test]
fn kept_scenes_are_summed_up() {
    let mut scene = SceneConfig::default();
    assert_eq!(
        scene_summary_text(UiLanguage::En, &scene, "0.70"),
        "Drive: Energy | Pulse: By strength | A 10-160 / B 10-160 | Smooth: 0.70"
    );
    scene.band_drive_mode = BandDriveMode::Onset;
    scene.auto_pulse_mode = AutoPulseMode::AlwaysMax;
    scene.strength_range_b = StrengthRange::new(0, 7);
    scene.smooth_strength_enabled = false;
    assert_eq!(
        scene_summary_text(UiLanguage::En, &scene, "0.70"),
        "Drive: Onset | Pulse: Always max | A 10-160 / B 0-7 | Smooth: off"
    );
    assert_eq!(
        scene_summary_text(UiLanguage::ZhCn, &scene, "0.70"),
        "驱动: 瞬态 | 波形: 始终最高 | A 10-160 / B 0-7 | 平滑: 关闭"
    );
}
