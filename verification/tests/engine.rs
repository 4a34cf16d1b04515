use dglab_audio_link::audio::analyzer::BandAnalysisFrame;
use dglab_audio_link::dglab::protocol::StrengthReport;
use dglab_audio_link::dglab::server::{
    DglabWsServer, DglabWsServerConfig, DglabWsServerEvent, DglabWsServerStatus,
};
use dglab_audio_link::level::Level;
use dglab_audio_link::pipeline::engine::{EngineSnapshot, PipelineEngine, PipelineSettings};
use dglab_audio_link::pipeline::waveform::RoundedWave;
use dglab_audio_link::pipeline::worker::{source_bands, ChannelCommands, PipelineWorker};
use dglab_audio_link::types::{BandDriveMode, BandRouting, DglabChannel, StrengthRange};

fn level(x: f32) -> Level {
    Level::from_bits(x.to_bits())
}

const URL: &str = "ws://10.0.0.1:1234/abc";

fn bound_status() -> DglabWsServerStatus {
    let mut status =
        DglabWsServer::new(DglabWsServerConfig::new("0.0.0.0:1", "ctrl")).status;
    status.app_id = Some("app".to_owned());
    status.app_bound = true;
    status
}

#[test]
fn start_prepares_the_server() {
    let mut engine = PipelineEngine::new();
    engine.snapshot.app_bound = true;
    engine.snapshot.output_strengths = [3, 4];
    let config = engine.start(false, URL).expect("must start").expect("must configure");
    assert_eq!(config.bind_addr, "0.0.0.0:1234");
    assert_eq!(config.controller_id, "abc");
    let shown = engine.snapshot();
    assert!(!shown.app_bound);
    assert_eq!(shown.output_strengths, [0, 0]);
    assert_eq!(
        shown.last_server_info.as_deref(),
        Some("ws server starting on 0.0.0.0:1234, session=abc")
    );
}

#[test]
fn a_running_worker_is_left_alone() {
    let mut engine = PipelineEngine::default();
    assert!(matches!(engine.start(true, "nonsense"), Ok(None)));
    assert_eq!(engine.snapshot.last_server_info, None);
}

#[test]
fn start_refuses_other_addresses() {
    let mut engine = PipelineEngine::new();
    for url in ["nonsense", "ws://h:1/a/b", "ws://h:1/"] {
        assert_eq!(
            engine.start(false, url).expect_err("must fail"),
            "invalid ws url. expected ws://<host>:<port>/<session-id>"
        );
    }
    assert_eq!(engine.snapshot.last_server_info, None);
}

#[test]
fn stop_and_restart_reset_what_is_shown() {
    let mut engine = PipelineEngine::new();
    engine.snapshot.app_connected = true;
    engine.snapshot.app_id = Some("app".to_owned());
    engine.snapshot.last_app_message = Some("m".to_owned());
    engine.stop();
    assert!(!engine.snapshot.app_connected);
    assert_eq!(engine.snapshot.app_id, None);
    assert_eq!(engine.snapshot.last_app_message.as_deref(), Some("m"));
    assert_eq!(engine.snapshot.last_server_info.as_deref(), Some("ws server stopped"));
    assert!(engine.restart("x").is_err());
    assert_eq!(engine.snapshot.last_server_info.as_deref(), Some("ws server stopped"));
    assert!(matches!(engine.restart(URL), Ok(Some(_))));
    assert_eq!(engine.snapshot.last_app_message, None);
}

#[test]
fn messages_are_checked_before_they_go() {
    let engine = PipelineEngine::new();
    let status = bound_status();
    let send = |running, status, control, message: &str| {
        engine.send_app_message(running, status, control, message)
    };
    assert_eq!(send(true, Some(&status), true, "strength-1+2+3"), Ok(()));
    assert_eq!(
        send(false, Some(&status), true, "m"),
        Err("ws server is not running".to_owned())
    );
    assert_eq!(
        send(true, None, true, "m"),
        Err("ws server status channel unavailable".to_owned())
    );
    let mut gone = bound_status();
    gone.app_id = None;
    assert_eq!(
        send(true, Some(&gone), true, "m"),
        Err("app is not connected yet".to_owned())
    );
    let mut unbound = bound_status();
    unbound.app_bound = false;
    assert_eq!(
        send(true, Some(&unbound), true, "m"),
        Err("app not bound yet. scan QR and wait for bind=200 first".to_owned())
    );
    assert_eq!(
        send(true, Some(&status), false, "m"),
        Err("ws server command channel unavailable".to_owned())
    );
}

#[test]
fn the_length_of_a_message_counts_after_wrapping() {
    let engine = PipelineEngine::new();
    let status = bound_status();
    let frame = "{\"type\":\"msg\",\"clientId\":\"ctrl\",\"targetId\":\"app\",\"message\":\"\"}";
    let room = 1950 - frame.len();
    assert_eq!(engine.send_app_message(true, Some(&status), true, &"x".repeat(room)), Ok(()));
    assert_eq!(
        engine.send_app_message(true, Some(&status), true, &"x".repeat(room + 1)),
        Err("message too long after JSON wrapping: 1951 > 1950".to_owned())
    );
    assert!(engine.send_app_message(true, Some(&status), true, &"\"".repeat(room)).is_err());
}

#[test]
fn snapshot_notes_failures() {
    let mut shown = EngineSnapshot::default();
    shown.server_failed("e");
    assert_eq!(shown.last_server_info.as_deref(), Some("ws server error: e"));
    shown.server_lost("e");
    assert_eq!(shown.last_server_info.as_deref(), Some("ws server join error: e"));
    shown.audio_capture_running = true;
    shown.bands_closed();
    assert!(!shown.audio_capture_running);
    assert_eq!(shown.last_server_info.as_deref(), Some("audio band stream closed"));
    shown.worker_stopped();
    assert_eq!(shown.last_server_info.as_deref(), Some("pipeline worker stopped"));
}

fn settings() -> PipelineSettings {
    let mut settings = PipelineSettings::default();
    settings.band_routing = [
        BandRouting::new(true, level(0.5), DglabChannel::A),
        BandRouting::new(true, level(0.5), DglabChannel::A),
        BandRouting::new(true, level(0.5), DglabChannel::B),
        BandRouting::new(false, level(0.5), DglabChannel::B),
    ];
    settings.strength_ranges = [StrengthRange::new(10, 110), StrengthRange::new(0, 200)];
    settings.smooth_strength_enabled = false;
    settings
}

fn connected(app_id: &str) -> DglabWsServerEvent {
    DglabWsServerEvent::Connected {
        app_id: app_id.to_owned(),
        requested_path: "/abc".to_owned(),
        peer_addr: "1.2.3.4:5".to_owned(),
    }
}

fn app_message(message: &str) -> DglabWsServerEvent {
    DglabWsServerEvent::AppMessage { app_id: "app".to_owned(), message: message.to_owned() }
}

#[test]
fn the_worker_follows_the_server() {
    let mut worker = PipelineWorker::new(&settings());
    let mut shown = EngineSnapshot::default();
    worker.on_server_event(&mut shown, connected("app"));
    assert!(shown.app_connected && !shown.app_bound && !worker.drives_app());
    assert_eq!(shown.last_server_info.as_deref(), Some("app connected: 1.2.3.4:5"));
    worker.on_server_event(&mut shown, DglabWsServerEvent::Bound { app_id: "app".to_owned() });
    assert!(shown.app_bound && worker.drives_app());
    assert_eq!(shown.last_server_info.as_deref(), Some("app bound (200)"));
    worker.on_server_event(&mut shown, app_message("strength-1+2+30+40"));
    assert_eq!(worker.latest_soft_limits, [30, 40]);
    assert_eq!(
        shown.latest_strength,
        Some(StrengthReport { a_strength: 1, b_strength: 2, a_soft_limit: 30, b_soft_limit: 40 })
    );
    assert_eq!(
        shown.last_server_info.as_deref(),
        Some("strength sync A:1 B:2 softA:30 softB:40")
    );
    worker.on_server_event(&mut shown, app_message(" Strength-oops "));
    assert_eq!(
        shown.last_server_info.as_deref(),
        Some("received non-standard strength report: Strength-oops")
    );
    worker.on_server_event(&mut shown, app_message("hello"));
    assert_eq!(shown.last_app_message.as_deref(), Some("hello"));
    assert_eq!(
        shown.last_server_info.as_deref(),
        Some("received non-standard strength report: Strength-oops")
    );
    worker.channel_active = [true, true];
    worker.on_server_event(
        &mut shown,
        DglabWsServerEvent::Disconnected { app_id: "app".to_owned() },
    );
    assert_eq!(worker.channel_active, [false, false]);
    assert!(!shown.app_connected && !worker.drives_app());
    assert_eq!(shown.last_server_info.as_deref(), Some("app disconnected"));
}

#[test]
fn captures_are_shown() {
    let mut asked = settings();
    asked.preferred_output_device_name = Some("Speaker".to_owned());
    let worker = PipelineWorker::new(&asked);
    let mut shown = EngineSnapshot::default();
    let config = worker.capture_config();
    assert_eq!((config.sample_rate, config.channels, config.frame_size), (48000, 2, 1024));
    assert_eq!(config.preferred_output_device_name.as_deref(), Some("Speaker"));
    worker.capture_started(&mut shown, Some("Device"));
    assert!(shown.audio_capture_running);
    assert_eq!(
        shown.last_server_info.as_deref(),
        Some("audio capture started on Device (speaker: Speaker, frame_size: 1024)")
    );
    worker.capture_failed(&mut shown, "no device");
    assert_eq!(shown.audio_input_device, None);
    assert_eq!(
        shown.last_server_info.as_deref(),
        Some("audio capture unavailable: no device")
    );
}

#[test]
fn a_tick_notices_changed_settings() {
    let mut asked = settings();
    let mut worker = PipelineWorker::new(&asked);
    let mut shown = EngineSnapshot::default();
    let start = worker.begin_tick(&mut shown, &asked);
    assert!(!start.reset_envelopes && start.switch_capture.is_none());
    worker.latest_bands = [level(0.5); 4];
    asked.band_drive_mode = BandDriveMode::Onset;
    asked.analysis_frame_size = 512;
    let start = worker.begin_tick(&mut shown, &asked);
    assert!(start.reset_envelopes);
    assert_eq!(worker.latest_bands.map(|l| l.bits), [0; 4]);
    assert_eq!(
        shown.last_server_info.as_deref(),
        Some("band drive mode switched to onset")
    );
    assert_eq!(start.switch_capture.expect("must switch").frame_size, 512);
    assert!(!worker.capture_switched(&mut shown, &asked, Err("gone")));
    assert_eq!(
        shown.last_server_info.as_deref(),
        Some("audio capture switch failed: gone")
    );
    assert!(worker.begin_tick(&mut shown, &asked).switch_capture.is_none());
    asked.preferred_output_device_name = Some("S".to_owned());
    assert!(worker.begin_tick(&mut shown, &asked).switch_capture.is_some());
    assert!(worker.capture_switched(&mut shown, &asked, Ok(None)));
    assert_eq!(
        shown.last_server_info.as_deref(),
        Some("audio capture switched to <unknown> (speaker: S, frame_size: 512)")
    );
}

#[test]
fn peaks_between_ticks_are_kept() {
    let asked = settings();
    let mut worker = PipelineWorker::new(&asked);
    let mut shown = EngineSnapshot::default();
    let frame = BandAnalysisFrame::default();
    worker.on_bands(&mut shown, frame, [0.9, 0.1, 1.5, 0.0].map(level));
    worker.on_bands(&mut shown, frame, [0.2, 0.3, 0.4, 0.5].map(level));
    assert_eq!(shown.latest_band_values.map(|l| f32::from_bits(l.bits)), [0.2, 0.3, 0.4, 0.5]);
    let bands = worker.sample_bands();
    assert_eq!(bands.map(|l| f32::from_bits(l.bits)), [0.9, 0.3, 1.0, 0.5]);
    let bands = worker.sample_bands();
    assert_eq!(bands.map(|l| f32::from_bits(l.bits)), [0.2, 0.3, 0.4, 0.5]);
}

#[test]
fn strengths_keep_to_the_soft_limits() {
    let mut asked = settings();
    let mut worker = PipelineWorker::new(&asked);
    worker.latest_soft_limits = [50, 60];
    let bands = [1.0, 0.6, 0.75, 1.0].map(level);
    let rises = [100, 20, 100, 200];
    assert_eq!(worker.resolve_strengths(&asked, bands, rises, 1), [50, 60]);
    assert_eq!(worker.mapping_max(&asked, DglabChannel::A), 50);
    asked.respect_app_soft_limit = false;
    assert_eq!(worker.resolve_strengths(&asked, bands, rises, 1), [110, 100]);
    assert_eq!(worker.mapping_max(&asked, DglabChannel::B), 200);
    asked.smooth_strength_enabled = true;
    assert_eq!(worker.resolve_strengths(&asked, [level(0.0); 4], [0; 4], 14), [96, 86]);
    assert_eq!(worker.smoothed_strength, [96, 86]);
}

#[test]
fn source_bands_follow_the_drive_mode() {
    let frame = BandAnalysisFrame {
        energy: [level(0.1); 4],
        onset: [level(0.2); 4],
    };
    assert_eq!(source_bands(BandDriveMode::Energy, frame)[0].bits, level(0.1).bits);
    assert_eq!(source_bands(BandDriveMode::Onset, frame)[3].bits, level(0.2).bits);
}

const WAVE: RoundedWave = RoundedWave { freq: [10; 4], amp: [50; 4] };

#[test]
fn a_channel_is_told_once_and_then_pulsed() {
    let mut asked = settings();
    asked.pulse_items_per_message = 2;
    let mut worker = PipelineWorker::new(&asked);
    let mut shown = EngineSnapshot::default();
    match worker.channel_commands(&asked, DglabChannel::A, 40, WAVE) {
        ChannelCommands::Drive { strength, pulse } => {
            assert_eq!(strength.as_deref(), Some("strength-1+2+40"));
            assert_eq!(pulse, "pulse-A:[\"0A0A0A0A32323232\",\"0A0A0A0A32323232\"]");
        }
        other => panic!("unexpected {other:?}"),
    }
    worker.strength_sent(&mut shown, DglabChannel::A, 40, None);
    worker.pulse_sent(&mut shown, DglabChannel::A, None);
    assert_eq!(worker.last_strength, [40, 0]);
    assert_eq!(worker.channel_active, [true, false]);
    asked.pulse_items_per_message = 99;
    match worker.channel_commands(&asked, DglabChannel::A, 40, WAVE) {
        ChannelCommands::Drive { strength, pulse } => {
            assert_eq!(strength, None);
            assert_eq!(pulse.matches("0A0A0A0A32323232").count(), 8);
        }
        other => panic!("unexpected {other:?}"),
    }
}

#[test]
fn a_channel_falls_silent_once() {
    let asked = settings();
    let mut worker = PipelineWorker::new(&asked);
    assert!(matches!(
        worker.channel_commands(&asked, DglabChannel::B, 0, WAVE),
        ChannelCommands::Nothing
    ));
    worker.channel_active = [false, true];
    worker.last_strength = [0, 9];
    match worker.channel_commands(&asked, DglabChannel::B, 0, WAVE) {
        ChannelCommands::Clear { clear, zero } => {
            assert_eq!(clear, "clear-2");
            assert_eq!(zero, "strength-2+2+0");
        }
        other => panic!("unexpected {other:?}"),
    }
    worker.channel_cleared(DglabChannel::B);
    assert_eq!((worker.channel_active, worker.last_strength), ([false; 2], [0; 2]));
}

#[test]
fn failed_sends_are_shown_and_not_counted() {
    let mut worker = PipelineWorker::new(&settings());
    let mut shown = EngineSnapshot::default();
    worker.strength_sent(&mut shown, DglabChannel::B, 40, Some("closed"));
    assert_eq!(shown.last_server_info.as_deref(), Some("auto strength send failed: closed"));
    worker.pulse_sent(&mut shown, DglabChannel::B, Some("closed"));
    assert_eq!(shown.last_server_info.as_deref(), Some("auto pulse send failed: closed"));
    assert_eq!((worker.channel_active, worker.last_strength), ([false; 2], [0; 2]));
    worker.end_tick(&mut shown, [1, 2]);
    assert_eq!(shown.output_strengths, [1, 2]);
}

#[test]
fn settings_are_taken_over_and_copied() {
    let mut engine = PipelineEngine::new();
    assert_eq!(engine.settings.pulse_items_per_message, 1);
    assert_eq!(f32::from_bits(engine.settings.waveform_contrast.bits), 1.8);
    assert_eq!(f32::from_bits(engine.settings.smooth_strength_factor.bits), 0.70);
    let mut asked = settings();
    asked.preferred_output_device_name = Some("S".to_owned());
    engine.update_settings(asked.clone());
    assert_eq!(engine.settings.strength_ranges[0], StrengthRange::new(10, 110));
    assert_eq!(engine.settings.preferred_output_device_name.as_deref(), Some("S"));
}

#[test]
fn strengths_never_leave_their_range() {
    let mut asked = settings();
    asked.strength_ranges = [StrengthRange::new(0, 60000), StrengthRange::new(60000, 60000)];
    asked.respect_app_soft_limit = false;
    let mut worker = PipelineWorker::new(&asked);
    let strengths = worker.resolve_strengths(&asked, [level(1.0); 4], [u16::MAX; 4], u16::MAX);
    assert_eq!(strengths, [200, 200]);
    let mut shown = EngineSnapshot::default();
    worker.on_server_event(&mut shown, app_message("strength-1+2+201+40"));
    assert_eq!(worker.latest_soft_limits, [200, 200]);
}
