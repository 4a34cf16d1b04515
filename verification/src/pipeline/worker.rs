//! The worker of the pipeline: it follows the server's events and the analysed
//! frames, and decides at every tick what the channels are told.

use vstd::prelude::*;

use crate::audio::analyzer;
use crate::audio::analyzer::{no_bands, BandAnalysisFrame};
use crate::audio::capture::LoopbackCaptureConfig;
use crate::dglab::json;
use crate::dglab::protocol;
use crate::dglab::protocol::{
    build_clear_message, build_pulse_message_from_items, build_strength_message,
    parse_strength_report, StrengthControlMode, StrengthReport,
};
use crate::dglab::server::{DglabWsServerEvent, EventView};
use crate::level::Level;
use crate::pipeline::engine::{EngineSnapshot, PipelineSettings, SnapshotView, MAX_AUTO_ITEMS};
use crate::pipeline::engine;
use crate::pipeline::waveform;
use crate::pipeline::waveform::{
    build_pulse_items_for_strength, resolve_waveform_pattern, smooth_strength_step, RoundedWave,
};
use crate::signal::mapper;
use crate::signal::mapper::{aggregate_channel_strengths, compute_band_outputs};
use crate::text;
use crate::text::{
    copy_optional, own_optional, push_decimal, same_optional, starts_with, to_lower, trim_text,
};
use crate::types;
use crate::types::{lesser, BandDriveMode, DglabChannel, WaveformPattern, BAND_COUNT, MAX_STRENGTH};

verus! {

#[derive(Debug)]
pub struct PipelineWorker {
    pub app_bound: bool,
    pub channel_active: [bool; 2],
    pub last_strength: [u16; 2],
    pub smoothed_strength: [u16; 2],
    pub latest_bands: [Level; BAND_COUNT],
    pub pending_peak_bands: [Level; BAND_COUNT],
    pub latest_analysis: BandAnalysisFrame,
    pub latest_soft_limits: [u16; 2],
    pub active_band_drive_mode: BandDriveMode,
    pub active_output_preference: Option<String>,
    pub active_frame_size: usize,
}

#[verifier::ext_equal]
pub struct WorkerView {
    pub app_bound: bool,
    pub channel_active: Seq<bool>,
    pub last_strength: Seq<u16>,
    pub smoothed_strength: Seq<u16>,
    pub latest_bands: Seq<Level>,
    pub pending_peak_bands: Seq<Level>,
    pub energy: Seq<Level>,
    pub onset: Seq<Level>,
    pub latest_soft_limits: Seq<u16>,
    pub drive_mode: BandDriveMode,
    pub speaker: Option<Seq<char>>,
    pub frame_size: usize,
}

impl View for PipelineWorker {
    type V = WorkerView;

    open spec fn view(&self) -> WorkerView {
        WorkerView {
            app_bound: self.app_bound,
            channel_active: self.channel_active@,
            last_strength: self.last_strength@,
            smoothed_strength: self.smoothed_strength@,
            latest_bands: self.latest_bands@,
            pending_peak_bands: self.pending_peak_bands@,
            energy: self.latest_analysis.energy@,
            onset: self.latest_analysis.onset@,
            latest_soft_limits: self.latest_soft_limits@,
            drive_mode: self.active_band_drive_mode,
            speaker: text::optional_text(self.active_output_preference),
            frame_size: self.active_frame_size,
        }
    }
}

impl WorkerView {
    /// A worker at its start.
    pub open spec fn fresh(
        drive_mode: BandDriveMode,
        speaker: Option<Seq<char>>,
        frame_size: usize,
    ) -> WorkerView {
        WorkerView {
            app_bound: false,
            channel_active: seq![false, false],
            last_strength: engine::no_strengths(),
            smoothed_strength: engine::no_strengths(),
            latest_bands: analyzer::silent_bands(),
            pending_peak_bands: analyzer::silent_bands(),
            energy: analyzer::silent_bands(),
            onset: analyzer::silent_bands(),
            latest_soft_limits: seq![MAX_STRENGTH, MAX_STRENGTH],
            drive_mode,
            speaker,
            frame_size,
        }
    }

    /// Without what it has heard.
    pub open spec fn silenced(self) -> WorkerView {
        WorkerView {
            latest_bands: analyzer::silent_bands(),
            pending_peak_bands: analyzer::silent_bands(),
            ..self
        }
    }

    /// The worker and the snapshot after an event of the server.
    pub open spec fn after_event(self, shown: SnapshotView, event: EventView) -> (
        WorkerView,
        SnapshotView,
    ) {
        match event {
            EventView::Connected { app_id, requested_path, peer_addr } => (
                WorkerView { app_bound: false, ..self },
                (SnapshotView {
                    app_connected: true,
                    app_bound: false,
                    app_id: Some(app_id),
                    output_strengths: engine::no_strengths(),
                    ..shown
                }).told("app connected: "@ + peer_addr),
            ),
            EventView::Bound { app_id } => (
                WorkerView { app_bound: true, ..self },
                (SnapshotView {
                    app_connected: true,
                    app_bound: true,
                    app_id: Some(app_id),
                    ..shown
                }).told("app bound (200)"@),
            ),
            EventView::AppMessage { app_id, message } => {
                let heard = SnapshotView { last_app_message: Some(message), ..shown };
                match protocol::report_in(message) {
                    Some(report) => (
                        WorkerView {
                            latest_soft_limits: seq![report.a_soft_limit, report.b_soft_limit],
                            ..self
                        },
                        (SnapshotView { latest_strength: Some(report), ..heard }).told(
                            report_info(report),
                        ),
                    ),
                    None => if text::has_prefix(
                        text::lower(text::trimmed(message)),
                        "strength-"@,
                    ) {
                        (
                            self,
                            heard.told(
                                "received non-standard strength report: "@ + text::trimmed(message),
                            ),
                        )
                    } else {
                        (self, heard)
                    },
                }
            },
            EventView::Disconnected { app_id } => (
                WorkerView {
                    app_bound: false,
                    channel_active: seq![false, false],
                    last_strength: engine::no_strengths(),
                    smoothed_strength: engine::no_strengths(),
                    ..self
                },
                (SnapshotView {
                    app_connected: false,
                    app_bound: false,
                    app_id: None,
                    output_strengths: engine::no_strengths(),
                    ..shown
                }).told("app disconnected"@),
            ),
        }
    }
}

/// How a strength report is shown.
pub open spec fn report_info(report: StrengthReport) -> Seq<char> {
    "strength sync A:"@ + text::decimal(report.a_strength as nat) + " B:"@ + text::decimal(
        report.b_strength as nat,
    ) + " softA:"@ + text::decimal(report.a_soft_limit as nat) + " softB:"@ + text::decimal(
        report.b_soft_limit as nat,
    )
}

/// How a capture is shown: the device, the speaker asked for and the frame size.
pub open spec fn capture_info(
    start: Seq<char>,
    device: Option<Seq<char>>,
    speaker: Option<Seq<char>>,
    frame_size: usize,
) -> Seq<char> {
    start + device.unwrap_or("<unknown>"@) + " (speaker: "@ + speaker.unwrap_or("default"@)
        + ", frame_size: "@ + text::decimal(frame_size as nat) + ")"@
}

fn describe_capture(
    start: &str,
    device: Option<&str>,
    speaker: &Option<String>,
    frame_size: usize,
) -> (r: String)
    ensures
        r@ == capture_info(
            start@,
            text::some_text(device),
            text::optional_text(*speaker),
            frame_size,
        ),
{
    let mut r = start.to_owned();
    r.append(
        match device {
            Some(name) => name,
            None => "<unknown>",
        },
    );
    r.append(" (speaker: ");
    r.append(
        match speaker {
            Some(name) => name.as_str(),
            None => "default",
        },
    );
    r.append(", frame_size: ");
    push_decimal(&mut r, frame_size as u64);
    r.append(")");
    r
}

/// The levels that drive the channels.
pub open spec fn driving_bands(mode: BandDriveMode, energy: Seq<Level>, onset: Seq<Level>) -> Seq<
    Level,
> {
    match mode {
        BandDriveMode::Energy => energy,
        BandDriveMode::Onset => onset,
    }
}

pub fn source_bands(mode: BandDriveMode, analysis: BandAnalysisFrame) -> (r: [Level; BAND_COUNT])
    ensures
        r@ == driving_bands(mode, analysis.energy@, analysis.onset@),
{
    match mode {
        BandDriveMode::Energy => analysis.energy,
        BandDriveMode::Onset => analysis.onset,
    }
}

/// The peaks with the new levels taken into account.
pub open spec fn raised_peaks(pending: Seq<Level>, bands: Seq<Level>) -> Seq<Level> {
    Seq::new(BAND_COUNT as nat, |i: int| pending[i].greater(bands[i].unit()))
}

/// The levels of a tick: the latest or the peak since the last tick, whichever
/// is greater.
pub open spec fn merged_bands(latest: Seq<Level>, pending: Seq<Level>) -> Seq<Level> {
    Seq::new(BAND_COUNT as nat, |i: int| latest[i].greater(pending[i]).unit())
}

/// Merges the latest levels with the peaks and forgets the peaks.
pub fn merge_bands_with_pending_peaks(
    latest: [Level; BAND_COUNT],
    pending_peaks: &mut [Level; BAND_COUNT],
) -> (r: [Level; BAND_COUNT])
    ensures
        r@ == merged_bands(latest@, old(pending_peaks)@),
        final(pending_peaks)@ == analyzer::silent_bands(),
{
    let r = [
        latest[0].or_greater(pending_peaks[0]).clamp_unit(),
        latest[1].or_greater(pending_peaks[1]).clamp_unit(),
        latest[2].or_greater(pending_peaks[2]).clamp_unit(),
        latest[3].or_greater(pending_peaks[3]).clamp_unit(),
    ];
    assert(r@ =~= merged_bands(latest@, pending_peaks@));
    *pending_peaks = no_bands();
    r
}

impl PipelineWorker {
    pub fn new(settings: &PipelineSettings) -> (r: PipelineWorker)
        ensures
            r@ == WorkerView::fresh(
                settings.band_drive_mode,
                settings.speaker(),
                settings.analysis_frame_size,
            ),
    {
        let r = PipelineWorker {
            app_bound: false,
            channel_active: [false, false],
            last_strength: [0, 0],
            smoothed_strength: [0, 0],
            latest_bands: no_bands(),
            pending_peak_bands: no_bands(),
            latest_analysis: BandAnalysisFrame::default(),
            latest_soft_limits: [MAX_STRENGTH, MAX_STRENGTH],
            active_band_drive_mode: settings.band_drive_mode,
            active_output_preference: copy_optional(&settings.preferred_output_device_name),
            active_frame_size: settings.analysis_frame_size,
        };
        assert(r@ =~= WorkerView::fresh(
            settings.band_drive_mode,
            settings.speaker(),
            settings.analysis_frame_size,
        ));
        r
    }

    /// The capture that the worker starts with.
    pub fn capture_config(&self) -> (r: LoopbackCaptureConfig)
        ensures
            r.is_usual(self@.frame_size, self@.speaker),
    {
        LoopbackCaptureConfig::with(
            self.active_frame_size,
            copy_optional(&self.active_output_preference),
        )
    }

    /// The first capture runs.
    pub fn capture_started(&self, snapshot: &mut EngineSnapshot, device: Option<&str>)
        ensures
            final(snapshot)@ == (SnapshotView {
                audio_capture_running: true,
                audio_input_device: text::some_text(device),
                ..old(snapshot)@
            }).told(
                capture_info(
                    "audio capture started on "@,
                    text::some_text(device),
                    self@.speaker,
                    self@.frame_size,
                ),
            ),
    {
        snapshot.audio_capture_running = true;
        snapshot.audio_input_device = own_optional(device);
        snapshot.last_server_info = Some(
            describe_capture(
                "audio capture started on ",
                device,
                &self.active_output_preference,
                self.active_frame_size,
            ),
        );
    }

    /// The first capture could not be started.
    pub fn capture_failed(&self, snapshot: &mut EngineSnapshot, error: &str)
        ensures
            final(snapshot)@ == (SnapshotView {
                audio_capture_running: false,
                audio_input_device: None,
                ..old(snapshot)@
            }).told("audio capture unavailable: "@ + error@),
    {
        let mut info = "audio capture unavailable: ".to_owned();
        info.append(error);
        snapshot.audio_capture_running = false;
        snapshot.audio_input_device = None;
        snapshot.last_server_info = Some(info);
    }

    /// Follows an event of the server.
    pub fn on_server_event(&mut self, snapshot: &mut EngineSnapshot, event: DglabWsServerEvent)
        ensures
            (final(self)@, final(snapshot)@) == old(self)@.after_event(old(snapshot)@, event@),
    {
        match event {
            DglabWsServerEvent::Connected { app_id, requested_path, peer_addr } => {
                self.app_bound = false;
                let mut info = "app connected: ".to_owned();
                info.append(peer_addr.as_str());
                snapshot.app_connected = true;
                snapshot.app_bound = false;
                snapshot.app_id = Some(app_id);
                snapshot.output_strengths = [0, 0];
                snapshot.last_server_info = Some(info);
                assert(snapshot.output_strengths@ =~= engine::no_strengths());
            },
            DglabWsServerEvent::Bound { app_id } => {
                self.app_bound = true;
                snapshot.app_connected = true;
                snapshot.app_bound = true;
                snapshot.app_id = Some(app_id);
                snapshot.last_server_info = Some("app bound (200)".to_owned());
            },
            DglabWsServerEvent::AppMessage { app_id, message } => {
                match parse_strength_report(message.as_str()) {
                    Some(report) => {
                        self.latest_soft_limits = [report.a_soft_limit, report.b_soft_limit];
                        assert(self.latest_soft_limits@ =~= seq![
                            report.a_soft_limit,
                            report.b_soft_limit,
                        ]);
                        let mut info = "strength sync A:".to_owned();
                        push_decimal(&mut info, report.a_strength as u64);
                        info.append(" B:");
                        push_decimal(&mut info, report.b_strength as u64);
                        info.append(" softA:");
                        push_decimal(&mut info, report.a_soft_limit as u64);
                        info.append(" softB:");
                        push_decimal(&mut info, report.b_soft_limit as u64);
                        snapshot.latest_strength = Some(report);
                        snapshot.last_server_info = Some(info);
                    },
                    None => {
                        let t = trim_text(message.as_str());
                        if starts_with(to_lower(t).as_str(), "strength-") {
                            let mut info = "received non-standard strength report: ".to_owned();
                            info.append(t);
                            snapshot.last_server_info = Some(info);
                        }
                    },
                }
                snapshot.last_app_message = Some(message);
            },
            DglabWsServerEvent::Disconnected { app_id } => {
                self.app_bound = false;
                self.channel_active = [false, false];
                self.last_strength = [0, 0];
                self.smoothed_strength = [0, 0];
                assert(self.channel_active@ =~= seq![false, false]);
                assert(self.last_strength@ =~= engine::no_strengths());
                assert(self.smoothed_strength@ =~= engine::no_strengths());
                snapshot.app_connected = false;
                snapshot.app_bound = false;
                snapshot.app_id = None;
                snapshot.output_strengths = [0, 0];
                snapshot.last_server_info = Some("app disconnected".to_owned());
                assert(snapshot.output_strengths@ =~= engine::no_strengths());
            },
        }
    }

    /// Takes in an analysed frame; `enveloped` are its driving levels after the
    /// envelopes.
    pub fn on_bands(
        &mut self,
        snapshot: &mut EngineSnapshot,
        analysis: BandAnalysisFrame,
        enveloped: [Level; BAND_COUNT],
    )
        ensures
            final(self)@ == (WorkerView {
                energy: analysis.energy@,
                onset: analysis.onset@,
                latest_bands: enveloped@,
                pending_peak_bands: raised_peaks(old(self)@.pending_peak_bands, enveloped@),
                ..old(self)@
            }),
            final(snapshot)@ == (SnapshotView {
                latest_band_values: enveloped@,
                ..old(snapshot)@
            }),
    {
        let ghost before = self.pending_peak_bands@;
        self.latest_analysis = analysis;
        self.latest_bands = enveloped;
        self.pending_peak_bands = [
            self.pending_peak_bands[0].or_greater(enveloped[0].clamp_unit()),
            self.pending_peak_bands[1].or_greater(enveloped[1].clamp_unit()),
            self.pending_peak_bands[2].or_greater(enveloped[2].clamp_unit()),
            self.pending_peak_bands[3].or_greater(enveloped[3].clamp_unit()),
        ];
        assert(self.pending_peak_bands@ =~= raised_peaks(before, enveloped@));
        snapshot.latest_band_values = enveloped;
    }
}

/// What a tick begins with.
#[derive(Debug)]
pub struct TickStart {
    /// Whether the envelopes start anew.
    pub reset_envelopes: bool,
    /// The capture that takes the place of the present one, if any.
    pub switch_capture: Option<LoopbackCaptureConfig>,
}

/// The note on a change of what drives the bands.
pub open spec fn drive_mode_info(mode: BandDriveMode) -> Seq<char> {
    match mode {
        BandDriveMode::Energy => "band drive mode switched to energy"@,
        BandDriveMode::Onset => "band drive mode switched to onset"@,
    }
}

/// The target strengths of a tick: the strongest that the bands ask for, within
/// the app's limits where they are respected.
pub open spec fn target_strengths(
    settings: PipelineSettings,
    bands: Seq<Level>,
    rises: Seq<u16>,
    soft_limits: Seq<u16>,
) -> Seq<u16> {
    let outputs = mapper::band_outputs(
        bands,
        settings.band_routing@,
        settings.strength_ranges@,
        rises,
    );
    let a = mapper::strongest(outputs, DglabChannel::A);
    let b = mapper::strongest(outputs, DglabChannel::B);
    if settings.respect_app_soft_limit {
        seq![types::min_u16(a, soft_limits[0]), types::min_u16(b, soft_limits[1])]
    } else {
        seq![a, b]
    }
}

/// The next strengths on the way to the targets.
pub open spec fn next_strengths(
    settings: PipelineSettings,
    current: Seq<u16>,
    targets: Seq<u16>,
    max_step: u16,
) -> Seq<u16> {
    if settings.smooth_strength_enabled {
        seq![
            waveform::smoothed_step(
                current[0],
                targets[0],
                settings.smooth_strength_factor.unit(),
                max_step,
            ),
            waveform::smoothed_step(
                current[1],
                targets[1],
                settings.smooth_strength_factor.unit(),
                max_step,
            ),
        ]
    } else {
        targets
    }
}

/// The strength that counts as the full wave of a channel.
pub open spec fn full_wave(settings: PipelineSettings, soft_limits: Seq<u16>, slot: int) -> u16 {
    let configured = settings.strength_ranges@[slot].ordered().max;
    if settings.respect_app_soft_limit {
        types::min_u16(configured, soft_limits[slot])
    } else {
        configured
    }
}

/// How many items an automatic pulse message carries.
pub open spec fn auto_item_count(settings: PipelineSettings) -> int {
    if settings.pulse_items_per_message < 1 {
        1
    } else if settings.pulse_items_per_message > MAX_AUTO_ITEMS {
        MAX_AUTO_ITEMS as int
    } else {
        settings.pulse_items_per_message as int
    }
}

/// What a channel is told at a tick.
#[derive(Debug)]
pub enum ChannelCommands {
    /// The strength, unless it was told before, and a pulse.
    Drive { strength: Option<String>, pulse: String },
    /// To fall silent.
    Clear { clear: String, zero: String },
    Nothing,
}

pub enum CommandsView {
    Drive { strength: Option<Seq<char>>, pulse: Seq<char> },
    Clear { clear: Seq<char>, zero: Seq<char> },
    Nothing,
}

impl View for ChannelCommands {
    type V = CommandsView;

    open spec fn view(&self) -> CommandsView {
        match self {
            ChannelCommands::Drive { strength, pulse } => CommandsView::Drive {
                strength: text::optional_text(*strength),
                pulse: pulse@,
            },
            ChannelCommands::Clear { clear, zero } => CommandsView::Clear {
                clear: clear@,
                zero: zero@,
            },
            ChannelCommands::Nothing => CommandsView::Nothing,
        }
    }
}

impl WorkerView {
    /// What a channel is told: its new strength and a pulse while it has any
    /// strength, to fall silent once after it had.
    pub open spec fn commands(
        self,
        settings: PipelineSettings,
        channel: DglabChannel,
        strength: u16,
        rounded: RoundedWave,
    ) -> CommandsView {
        let pattern = waveform::resolved_pattern(
            settings.waveform_pattern_mode,
            settings.waveform_pattern,
            self.energy,
            self.onset,
        );
        let item = waveform::strength_item(strength, settings.auto_pulse_mode, pattern, rounded);
        if strength > 0 {
            CommandsView::Drive {
                strength: if strength != self.last_strength[channel.slot()] {
                    Some(
                        protocol::strength_text(channel, StrengthControlMode::SetValue, strength),
                    )
                } else {
                    None
                },
                pulse: "pulse-"@ + channel.name() + ":"@ + json::json_list(
                    Seq::new(auto_item_count(settings) as nat, |i: int| item),
                ),
            }
        } else if self.channel_active[channel.slot()] {
            CommandsView::Clear {
                clear: protocol::clear_text(channel),
                zero: protocol::strength_text(channel, StrengthControlMode::SetValue, 0),
            }
        } else {
            CommandsView::Nothing
        }
    }
}

/// The list with the value of a channel replaced.
fn with_strength(values: [u16; 2], channel: DglabChannel, value: u16) -> (r: [u16; 2])
    ensures
        r@ == values@.update(channel.slot(), value),
{
    let r = match channel {
        DglabChannel::A => [value, values[1]],
        DglabChannel::B => [values[0], value],
    };
    assert(r@ =~= values@.update(channel.slot(), value));
    r
}

fn with_active(values: [bool; 2], channel: DglabChannel, value: bool) -> (r: [bool; 2])
    ensures
        r@ == values@.update(channel.slot(), value),
{
    let r = match channel {
        DglabChannel::A => [value, values[1]],
        DglabChannel::B => [values[0], value],
    };
    assert(r@ =~= values@.update(channel.slot(), value));
    r
}

impl PipelineWorker {
    fn silence(&mut self)
        ensures
            final(self)@ == old(self)@.silenced(),
    {
        self.latest_bands = no_bands();
        self.pending_peak_bands = no_bands();
    }

    /// Begins a tick: a change of what drives the bands starts them anew, a
    /// change of the speaker or the frame size asks for another capture.
    pub fn begin_tick(&mut self, snapshot: &mut EngineSnapshot, settings: &PipelineSettings) -> (r:
        TickStart)
        ensures
            r.reset_envelopes == (settings.band_drive_mode != old(self)@.drive_mode),
            match r.switch_capture {
                Some(config) => {
                    &&& settings.speaker() != old(self)@.speaker || settings.analysis_frame_size
                        != old(self)@.frame_size
                    &&& config.is_usual(settings.analysis_frame_size, settings.speaker())
                },
                None => settings.speaker() == old(self)@.speaker && settings.analysis_frame_size
                    == old(self)@.frame_size,
            },
            if settings.band_drive_mode != old(self)@.drive_mode {
                &&& final(self)@ == (WorkerView {
                    drive_mode: settings.band_drive_mode,
                    ..old(self)@.silenced()
                })
                &&& final(snapshot)@ == (SnapshotView {
                    latest_band_values: analyzer::silent_bands(),
                    ..old(snapshot)@
                }).told(drive_mode_info(settings.band_drive_mode))
            } else {
                final(self)@ == old(self)@ && final(snapshot)@ == old(snapshot)@
            },
    {
        let reset_envelopes = settings.band_drive_mode != self.active_band_drive_mode;
        if reset_envelopes {
            self.active_band_drive_mode = settings.band_drive_mode;
            self.silence();
            snapshot.latest_band_values = no_bands();
            snapshot.last_server_info = Some(
                match settings.band_drive_mode {
                    BandDriveMode::Energy => "band drive mode switched to energy".to_owned(),
                    BandDriveMode::Onset => "band drive mode switched to onset".to_owned(),
                },
            );
        }
        let same = same_optional(
            &settings.preferred_output_device_name,
            &self.active_output_preference,
        ) && settings.analysis_frame_size == self.active_frame_size;
        TickStart {
            reset_envelopes,
            switch_capture: if same {
                None
            } else {
                Some(
                    LoopbackCaptureConfig::with(
                        settings.analysis_frame_size,
                        copy_optional(&settings.preferred_output_device_name),
                    ),
                )
            },
        }
    }

    /// Another capture has been started, or has failed to start: `outcome` is
    /// its device or the error. Gives whether the envelopes start anew.
    pub fn capture_switched(
        &mut self,
        snapshot: &mut EngineSnapshot,
        settings: &PipelineSettings,
        outcome: Result<Option<&str>, &str>,
    ) -> (r: bool)
        ensures
            r == outcome is Ok,
            match outcome {
                Ok(device) => {
                    &&& final(self)@ == (WorkerView {
                        speaker: settings.speaker(),
                        frame_size: settings.analysis_frame_size,
                        ..old(self)@.silenced()
                    })
                    &&& final(snapshot)@ == (SnapshotView {
                        audio_capture_running: true,
                        audio_input_device: text::some_text(device),
                        latest_band_values: analyzer::silent_bands(),
                        ..old(snapshot)@
                    }).told(
                        capture_info(
                            "audio capture switched to "@,
                            text::some_text(device),
                            settings.speaker(),
                            settings.analysis_frame_size,
                        ),
                    )
                },
                Err(error) => {
                    &&& final(self)@ == (WorkerView {
                        speaker: settings.speaker(),
                        frame_size: settings.analysis_frame_size,
                        ..old(self)@
                    })
                    &&& final(snapshot)@ == (SnapshotView {
                        audio_capture_running: false,
                        audio_input_device: None,
                        ..old(snapshot)@
                    }).told("audio capture switch failed: "@ + error@)
                },
            },
    {
        let started = match outcome {
            Ok(device) => {
                self.silence();
                snapshot.audio_capture_running = true;
                snapshot.audio_input_device = own_optional(device);
                snapshot.latest_band_values = no_bands();
                snapshot.last_server_info = Some(
                    describe_capture(
                        "audio capture switched to ",
                        device,
                        &settings.preferred_output_device_name,
                        settings.analysis_frame_size,
                    ),
                );
                true
            },
            Err(error) => {
                let mut info = "audio capture switch failed: ".to_owned();
                info.append(error);
                snapshot.audio_capture_running = false;
                snapshot.audio_input_device = None;
                snapshot.last_server_info = Some(info);
                false
            },
        };
        self.active_output_preference = copy_optional(&settings.preferred_output_device_name);
        self.active_frame_size = settings.analysis_frame_size;
        started
    }

    /// Whether there is anybody to drive.
    pub fn drives_app(&self) -> (r: bool)
        ensures
            r == self@.app_bound,
    {
        self.app_bound
    }

    /// The levels of a tick.
    pub fn sample_bands(&mut self) -> (r: [Level; BAND_COUNT])
        ensures
            r@ == merged_bands(old(self)@.latest_bands, old(self)@.pending_peak_bands),
            final(self)@ == (WorkerView {
                pending_peak_bands: analyzer::silent_bands(),
                ..old(self)@
            }),
    {
        merge_bands_with_pending_peaks(self.latest_bands, &mut self.pending_peak_bands)
    }

    /// The strengths of a tick. `rises` are the rounded rises of the bands above
    /// their thresholds, `max_step` the rounded step that the smoothness allows.
    pub fn resolve_strengths(
        &mut self,
        settings: &PipelineSettings,
        bands: [Level; BAND_COUNT],
        rises: [u16; BAND_COUNT],
        max_step: u16,
    ) -> (r: [u16; 2])
        ensures
            r@ == next_strengths(
                *settings,
                old(self)@.smoothed_strength,
                target_strengths(*settings, bands@, rises@, old(self)@.latest_soft_limits),
                max_step,
            ),
            final(self)@ == (WorkerView { smoothed_strength: r@, ..old(self)@ }),
    {
        let outputs = compute_band_outputs(
            bands,
            settings.band_routing,
            settings.strength_ranges,
            rises,
        );
        let asked = aggregate_channel_strengths(outputs);
        let targets = if settings.respect_app_soft_limit {
            [
                lesser(asked[0], self.latest_soft_limits[0]),
                lesser(asked[1], self.latest_soft_limits[1]),
            ]
        } else {
            asked
        };
        assert(targets@ =~= target_strengths(
            *settings,
            bands@,
            rises@,
            self.latest_soft_limits@,
        ));
        let factor = settings.smooth_strength_factor.clamp_unit();
        let next = if settings.smooth_strength_enabled {
            [
                smooth_strength_step(self.smoothed_strength[0], targets[0], factor, max_step),
                smooth_strength_step(self.smoothed_strength[1], targets[1], factor, max_step),
            ]
        } else {
            targets
        };
        assert(next@ =~= next_strengths(*settings, self.smoothed_strength@, targets@, max_step));
        self.smoothed_strength = next;
        next
    }

    /// The strength that counts as the full wave of a channel.
    pub fn mapping_max(&self, settings: &PipelineSettings, channel: DglabChannel) -> (r: u16)
        ensures
            r == full_wave(*settings, self@.latest_soft_limits, channel.slot()),
            r <= MAX_STRENGTH,
    {
        let slot: usize = channel.index();
        let configured: u16 = settings.strength_ranges[slot].normalized().max;
        if settings.respect_app_soft_limit {
            lesser(configured, self.latest_soft_limits[slot])
        } else {
            configured
        }
    }

    /// The waveform pattern of this tick.
    pub fn pattern(&self, settings: &PipelineSettings) -> (r: WaveformPattern)
        ensures
            r == waveform::resolved_pattern(
                settings.waveform_pattern_mode,
                settings.waveform_pattern,
                self@.energy,
                self@.onset,
            ),
    {
        resolve_waveform_pattern(
            settings.waveform_pattern_mode,
            settings.waveform_pattern,
            self.latest_analysis,
        )
    }

    /// What a channel is told. `rounded` is the wave for its strength.
    pub fn channel_commands(
        &self,
        settings: &PipelineSettings,
        channel: DglabChannel,
        strength: u16,
        rounded: RoundedWave,
    ) -> (r: ChannelCommands)
        ensures
            r@ == self@.commands(*settings, channel, strength, rounded),
    {
        let slot: usize = channel.index();
        if strength > 0 {
            let strength_message = if strength != self.last_strength[slot] {
                Some(build_strength_message(channel, StrengthControlMode::SetValue, strength))
            } else {
                None
            };
            let count: usize = if settings.pulse_items_per_message < 1 {
                1
            } else if settings.pulse_items_per_message > MAX_AUTO_ITEMS {
                MAX_AUTO_ITEMS
            } else {
                settings.pulse_items_per_message
            };
            let pattern = self.pattern(settings);
            let items = build_pulse_items_for_strength(
                strength,
                count,
                settings.auto_pulse_mode,
                pattern,
                rounded,
            );
            proof {
                let item = waveform::strength_item(
                    strength,
                    settings.auto_pulse_mode,
                    pattern,
                    rounded,
                );
                let given = text::views(items@);
                assert forall|i: int| 0 <= i < given.len() implies #[trigger] given[i] == item by {
                    assert(given[i] == items@[i]@);
                }
                waveform::law_items_make_a_message(
                    channel,
                    strength,
                    settings.auto_pulse_mode,
                    pattern,
                    rounded,
                    given,
                );
                assert(given =~= Seq::new(auto_item_count(*settings) as nat, |i: int| item));
            }
            let pulse = match build_pulse_message_from_items(channel, &items) {
                Ok(pulse) => pulse,
                Err(message) => {
                    assert(false);
                    message
                },
            };
            ChannelCommands::Drive { strength: strength_message, pulse }
        } else if self.channel_active[slot] {
            ChannelCommands::Clear {
                clear: build_clear_message(channel),
                zero: build_strength_message(channel, StrengthControlMode::SetValue, 0),
            }
        } else {
            ChannelCommands::Nothing
        }
    }

    /// A strength message was handed over, or failed with the error.
    pub fn strength_sent(
        &mut self,
        snapshot: &mut EngineSnapshot,
        channel: DglabChannel,
        strength: u16,
        error: Option<&str>,
    )
        ensures
            match error {
                None => {
                    &&& final(self)@ == (WorkerView {
                        last_strength: old(self)@.last_strength.update(channel.slot(), strength),
                        ..old(self)@
                    })
                    &&& final(snapshot)@ == old(snapshot)@
                },
                Some(e) => {
                    &&& final(self)@ == old(self)@
                    &&& final(snapshot)@ == old(snapshot)@.told(
                        "auto strength send failed: "@ + e@,
                    )
                },
            },
    {
        match error {
            None => {
                self.last_strength = with_strength(self.last_strength, channel, strength);
            },
            Some(e) => {
                let mut info = "auto strength send failed: ".to_owned();
                info.append(e);
                snapshot.last_server_info = Some(info);
            },
        }
    }

    /// A pulse message was handed over, or failed with the error.
    pub fn pulse_sent(
        &mut self,
        snapshot: &mut EngineSnapshot,
        channel: DglabChannel,
        error: Option<&str>,
    )
        ensures
            match error {
                None => {
                    &&& final(self)@ == (WorkerView {
                        channel_active: old(self)@.channel_active.update(channel.slot(), true),
                        ..old(self)@
                    })
                    &&& final(snapshot)@ == old(snapshot)@
                },
                Some(e) => {
                    &&& final(self)@ == old(self)@
                    &&& final(snapshot)@ == old(snapshot)@.told("auto pulse send failed: "@ + e@)
                },
            },
    {
        match error {
            None => {
                self.channel_active = with_active(self.channel_active, channel, true);
            },
            Some(e) => {
                let mut info = "auto pulse send failed: ".to_owned();
                info.append(e);
                snapshot.last_server_info = Some(info);
            },
        }
    }

    /// A channel was told to fall silent, whether or not that went through.
    pub fn channel_cleared(&mut self, channel: DglabChannel)
        ensures
            final(self)@ == (WorkerView {
                channel_active: old(self)@.channel_active.update(channel.slot(), false),
                last_strength: old(self)@.last_strength.update(channel.slot(), 0),
                ..old(self)@
            }),
    {
        self.channel_active = with_active(self.channel_active, channel, false);
        self.last_strength = with_strength(self.last_strength, channel, 0);
    }

    /// Ends a tick.
    pub fn end_tick(&self, snapshot: &mut EngineSnapshot, strengths: [u16; 2])
        ensures
            final(snapshot)@ == (SnapshotView { output_strengths: strengths@, ..old(snapshot)@ }),
    {
        snapshot.output_strengths = strengths;
    }
}

/// An app that leaves takes everything with it that a channel was told.
pub proof fn law_a_leaving_app_leaves_nothing(
    worker: WorkerView,
    shown: SnapshotView,
    app_id: Seq<char>,
    settings: PipelineSettings,
    channel: DglabChannel,
    rounded: RoundedWave,
)
    ensures
        ({
            let (after, _) = worker.after_event(shown, EventView::Disconnected { app_id });
            &&& !after.app_bound
            &&& after.commands(settings, channel, 0, rounded) is Nothing
        }),
{
}

/// The soft limits that the worker holds come from the app's latest report, and
/// are never above the maximum strength.
pub proof fn law_soft_limits_stay_in_range(worker: WorkerView, shown: SnapshotView, event: EventView)
    requires
        worker.latest_soft_limits.len() == 2,
        worker.latest_soft_limits[0] <= MAX_STRENGTH,
        worker.latest_soft_limits[1] <= MAX_STRENGTH,
    ensures
        ({
            let (after, _) = worker.after_event(shown, event);
            &&& after.latest_soft_limits.len() == 2
            &&& after.latest_soft_limits[0] <= MAX_STRENGTH
            &&& after.latest_soft_limits[1] <= MAX_STRENGTH
        }),
{
    match event {
        EventView::AppMessage { app_id, message } => {
            protocol::law_read_report_is_in_range(message);
        },
        _ => {},
    }
}

/// The targets keep to the maximum strength, and to the app's limits where they
/// are respected.
pub proof fn law_targets_keep_to_the_limits(
    settings: PipelineSettings,
    bands: Seq<Level>,
    rises: Seq<u16>,
    soft_limits: Seq<u16>,
    slot: int,
)
    requires
        soft_limits.len() == 2,
        0 <= slot < 2,
    ensures
        target_strengths(settings, bands, rises, soft_limits)[slot] <= MAX_STRENGTH,
        settings.respect_app_soft_limit ==> target_strengths(settings, bands, rises, soft_limits)[slot]
            <= soft_limits[slot],
{
    let outputs = mapper::band_outputs(
        bands,
        settings.band_routing@,
        settings.strength_ranges@,
        rises,
    );
    lemma_outputs_bounded(bands, settings, rises, DglabChannel::A);
    lemma_outputs_bounded(bands, settings, rises, DglabChannel::B);
}

proof fn lemma_outputs_bounded(
    bands: Seq<Level>,
    settings: PipelineSettings,
    rises: Seq<u16>,
    channel: DglabChannel,
)
    ensures
        mapper::strongest(
            mapper::band_outputs(bands, settings.band_routing@, settings.strength_ranges@, rises),
            channel,
        ) <= MAX_STRENGTH,
{
    let outputs = mapper::band_outputs(
        bands,
        settings.band_routing@,
        settings.strength_ranges@,
        rises,
    );
    mapper::law_strongest_is_the_maximum(outputs, channel);
    let top = mapper::strongest(outputs, channel);
    if top != 0 {
        let i = choose|i: int| 0 <= i < outputs.len() && outputs[i] == Some((channel, top));
        assert(outputs[i] == Some((channel, top)));
        let route = settings.band_routing@[i];
        let range = settings.strength_ranges@[route.channel.slot()];
        mapper::law_mapped_strength_is_in_range(
            bands[i].unit(),
            route.threshold,
            range,
            rises[i],
        );
    }
}

/// Strengths that keep to the maximum go on doing so.
pub proof fn law_strengths_keep_to_the_maximum(
    settings: PipelineSettings,
    current: Seq<u16>,
    targets: Seq<u16>,
    max_step: u16,
    slot: int,
)
    requires
        0 <= slot < 2,
        current[slot] <= MAX_STRENGTH,
        targets[slot] <= MAX_STRENGTH,
    ensures
        next_strengths(settings, current, targets, max_step)[slot] <= MAX_STRENGTH,
{
    waveform::law_smoothing_stays_between(
        current[slot],
        targets[slot],
        settings.smooth_strength_factor.unit(),
        max_step,
    );
}

impl WorkerView {
    /// Two channels, and no strength or limit above the maximum.
    pub open spec fn in_range(self) -> bool {
        &&& self.channel_active.len() == 2
        &&& self.last_strength.len() == 2
        &&& self.smoothed_strength.len() == 2
        &&& self.latest_soft_limits.len() == 2
        &&& forall|slot: int| 0 <= slot < 2 ==> #[trigger] self.last_strength[slot] <= MAX_STRENGTH
        &&& forall|slot: int|
            0 <= slot < 2 ==> #[trigger] self.smoothed_strength[slot] <= MAX_STRENGTH
        &&& forall|slot: int|
            0 <= slot < 2 ==> #[trigger] self.latest_soft_limits[slot] <= MAX_STRENGTH
    }
}

/// The worker begins in range and stays there: through every event, through the
/// strengths of a tick, and when a channel is told one of them or falls silent.
pub proof fn law_worker_stays_in_range(
    worker: WorkerView,
    shown: SnapshotView,
    event: EventView,
    settings: PipelineSettings,
    bands: Seq<Level>,
    rises: Seq<u16>,
    max_step: u16,
    channel: DglabChannel,
)
    requires
        worker.in_range(),
    ensures
        WorkerView::fresh(
            settings.band_drive_mode,
            settings.speaker(),
            settings.analysis_frame_size,
        ).in_range(),
        worker.after_event(shown, event).0.in_range(),
        ({
            let targets = target_strengths(settings, bands, rises, worker.latest_soft_limits);
            let strengths = next_strengths(
                settings,
                worker.smoothed_strength,
                targets,
                max_step,
            );
            let resolved = WorkerView { smoothed_strength: strengths, ..worker };
            let slot = channel.slot();
            &&& resolved.in_range()
            &&& (WorkerView {
                last_strength: worker.last_strength.update(slot, strengths[slot]),
                channel_active: worker.channel_active.update(slot, true),
                ..resolved
            }).in_range()
            &&& (WorkerView {
                last_strength: worker.last_strength.update(slot, 0),
                channel_active: worker.channel_active.update(slot, false),
                ..resolved
            }).in_range()
        }),
{
    match event {
        EventView::AppMessage { app_id, message } => {
            protocol::law_read_report_is_in_range(message);
        },
        _ => {},
    }
    let limits = worker.latest_soft_limits;
    let targets = target_strengths(settings, bands, rises, limits);
    law_targets_keep_to_the_limits(settings, bands, rises, limits, 0);
    law_targets_keep_to_the_limits(settings, bands, rises, limits, 1);
    law_strengths_keep_to_the_maximum(settings, worker.smoothed_strength, targets, max_step, 0);
    law_strengths_keep_to_the_maximum(settings, worker.smoothed_strength, targets, max_step, 1);
}

/// A channel without strength that was told to fall silent is told nothing
/// more.
pub proof fn law_silence_is_told_once(
    worker: WorkerView,
    settings: PipelineSettings,
    channel: DglabChannel,
    rounded: RoundedWave,
)
    requires
        worker.channel_active.len() == 2,
    ensures
        ({
            let after = WorkerView {
                channel_active: worker.channel_active.update(channel.slot(), false),
                last_strength: worker.last_strength.update(channel.slot(), 0),
                ..worker
            };
            after.commands(settings, channel, 0, rounded) is Nothing
        }),
{
}

/// A strength that was told is not told again.
pub proof fn law_a_strength_is_told_once(
    worker: WorkerView,
    settings: PipelineSettings,
    channel: DglabChannel,
    strength: u16,
    rounded: RoundedWave,
)
    requires
        worker.last_strength.len() == 2,
        strength > 0,
    ensures
        ({
            let after = WorkerView {
                last_strength: worker.last_strength.update(channel.slot(), strength),
                ..worker
            };
            after.commands(settings, channel, strength, rounded) matches CommandsView::Drive {
                strength: told,
                pulse,
            } && told is None
        }),
{
}

/// A peak between two ticks is not lost: the levels of the tick are at least as
/// great, where all are numbers.
pub proof fn law_peaks_reach_the_tick(latest: Seq<Level>, pending: Seq<Level>, bands: Seq<Level>, i: int)
    requires
        0 <= i < BAND_COUNT,
        !pending[i].is_nan(),
        !bands[i].is_nan(),
        !latest[i].is_nan(),
    ensures
        bands[i].unit().le(merged_bands(latest, raised_peaks(pending, bands))[i]),
{
}

/// A channel with strength is driven, under its own mark: the pulse goes to its
/// letter, and the strength to its number, where it differs from the one that it
/// was told last.
pub proof fn law_commands_name_their_channel(
    worker: WorkerView,
    settings: PipelineSettings,
    strength: u16,
    rounded: RoundedWave,
)
    requires
        strength > 0,
    ensures
        worker.commands(settings, DglabChannel::A, strength, rounded) matches CommandsView::Drive {
            strength: told,
            pulse,
        } && {
            &&& text::has_prefix(pulse, "pulse-A:"@)
            &&& told is Some <==> strength != worker.last_strength[0]
            &&& told is Some ==> told->0 == "strength-1+2+"@ + text::decimal(
                if strength > 200 {
                    200
                } else {
                    strength as nat
                },
            )
        },
        worker.commands(settings, DglabChannel::B, strength, rounded) matches CommandsView::Drive {
            strength: told,
            pulse,
        } && {
            &&& text::has_prefix(pulse, "pulse-B:"@)
            &&& told is Some <==> strength != worker.last_strength[1]
            &&& told is Some ==> told->0 == "strength-2+2+"@ + text::decimal(
                if strength > 200 {
                    200
                } else {
                    strength as nat
                },
            )
        },
{
    protocol::law_strength_message_names_channel_mode_and_value(strength);
    reveal_strlit("pulse-");
    reveal_strlit("A");
    reveal_strlit("B");
    reveal_strlit(":");
    reveal_strlit("pulse-A:");
    reveal_strlit("pulse-B:");
    match worker.commands(settings, DglabChannel::A, strength, rounded) {
        CommandsView::Drive { strength: told, pulse } => {
            assert(pulse.take(8) =~= "pulse-A:"@);
        },
        _ => {},
    }
    match worker.commands(settings, DglabChannel::B, strength, rounded) {
        CommandsView::Drive { strength: told, pulse } => {
            assert(pulse.take(8) =~= "pulse-B:"@);
        },
        _ => {},
    }
}

/// The pulse of a channel is the message that its items make: as many as are
/// asked for, from one to eight, each the item for the strength in the pattern of
/// the tick.
pub proof fn law_pulse_is_made_of_the_items(
    worker: WorkerView,
    settings: PipelineSettings,
    channel: DglabChannel,
    strength: u16,
    rounded: RoundedWave,
    items: Seq<Seq<char>>,
)
    requires
        strength > 0,
        1 <= items.len() <= 8,
        items.len() == settings.pulse_items_per_message || (items.len() == 1
            && settings.pulse_items_per_message == 0) || (items.len() == 8
            && settings.pulse_items_per_message > 8),
        forall|i: int|
            0 <= i < items.len() ==> #[trigger] items[i] == waveform::strength_item(
                strength,
                settings.auto_pulse_mode,
                waveform::resolved_pattern(
                    settings.waveform_pattern_mode,
                    settings.waveform_pattern,
                    worker.energy,
                    worker.onset,
                ),
                rounded,
            ),
    ensures
        worker.commands(settings, channel, strength, rounded) matches CommandsView::Drive {
            strength: told,
            pulse,
        } && protocol::pulse_outcome(channel, items) == Ok::<Seq<char>, Seq<char>>(pulse),
{
    let pattern = waveform::resolved_pattern(
        settings.waveform_pattern_mode,
        settings.waveform_pattern,
        worker.energy,
        worker.onset,
    );
    let item = waveform::strength_item(strength, settings.auto_pulse_mode, pattern, rounded);
    waveform::law_items_make_a_message(
        channel,
        strength,
        settings.auto_pulse_mode,
        pattern,
        rounded,
        items,
    );
    assert(items =~= Seq::new(auto_item_count(settings) as nat, |i: int| item));
}

/// A channel without strength is cleared under its own number where it was
/// active, and told nothing where it was not.
pub proof fn law_silent_channels_are_cleared(
    worker: WorkerView,
    settings: PipelineSettings,
    rounded: RoundedWave,
)
    ensures
        worker.channel_active[0] ==> worker.commands(settings, DglabChannel::A, 0, rounded)
            == (CommandsView::Clear { clear: "clear-1"@, zero: "strength-1+2+0"@ }),
        !worker.channel_active[0] ==> worker.commands(settings, DglabChannel::A, 0, rounded)
            is Nothing,
        worker.channel_active[1] ==> worker.commands(settings, DglabChannel::B, 0, rounded)
            == (CommandsView::Clear { clear: "clear-2"@, zero: "strength-2+2+0"@ }),
        !worker.channel_active[1] ==> worker.commands(settings, DglabChannel::B, 0, rounded)
            is Nothing,
{
    protocol::law_clear_message_names_the_channel();
    protocol::law_strength_message_names_channel_mode_and_value(0);
    reveal_strlit("strength-1+2+");
    reveal_strlit("strength-2+2+");
    reveal_strlit("strength-1+2+0");
    reveal_strlit("strength-2+2+0");
    text::law_decimal_notation(0, 0);
    assert("strength-1+2+"@ + text::decimal(0) =~= "strength-1+2+0"@);
    assert("strength-2+2+"@ + text::decimal(0) =~= "strength-2+2+0"@);
}

/// The worker and the snapshot after a row of events.
pub open spec fn after_events(
    worker: WorkerView,
    shown: SnapshotView,
    events: Seq<EventView>,
) -> (WorkerView, SnapshotView)
    decreases events.len(),
{
    if events.len() == 0 {
        (worker, shown)
    } else {
        let (w, s) = after_events(worker, shown, events.drop_last());
        w.after_event(s, events.last())
    }
}

/// Whether an event says who is connected.
pub open spec fn is_about_the_connection(event: EventView) -> bool {
    !(event is AppMessage)
}

/// The worker drives an app, and the snapshot shows one as bound, exactly while
/// the latest word about the connection was that it is bound; messages do not
/// change that.
pub proof fn law_binding_follows_the_latest_word(
    worker: WorkerView,
    shown: SnapshotView,
    events: Seq<EventView>,
    latest: int,
)
    requires
        0 <= latest < events.len(),
        is_about_the_connection(events[latest]),
        forall|i: int|
            latest < i < events.len() ==> !is_about_the_connection(#[trigger] events[i]),
    ensures
        ({
            let (w, s) = after_events(worker, shown, events);
            &&& w.app_bound <==> events[latest] is Bound
            &&& s.app_bound <==> events[latest] is Bound
            &&& s.app_connected <==> !(events[latest] is Disconnected)
            &&& events[latest] matches EventView::Connected { app_id, .. } ==> s.app_id == Some(
                app_id,
            )
            &&& events[latest] matches EventView::Bound { app_id } ==> s.app_id == Some(app_id)
            &&& events[latest] is Disconnected ==> s.app_id is None
        }),
    decreases events.len(),
{
    let t = events.drop_last();
    if latest < events.len() - 1 {
        assert(!is_about_the_connection(events[events.len() - 1]));
        assert forall|i: int| latest < i < t.len() implies !is_about_the_connection(
            #[trigger] t[i],
        ) by {
            assert(t[i] == events[i]);
        }
        assert(t[latest] == events[latest]);
        law_binding_follows_the_latest_word(worker, shown, t, latest);
    }
}

/// The soft limits, and the report that is shown, are those of the latest message
/// that is a report; no other event changes them.
pub proof fn law_limits_follow_the_latest_report(
    worker: WorkerView,
    shown: SnapshotView,
    event: EventView,
)
    ensures
        ({
            let (w, s) = worker.after_event(shown, event);
            match event {
                EventView::AppMessage { app_id, message } => match protocol::report_in(message) {
                    Some(report) => {
                        &&& w.latest_soft_limits == seq![report.a_soft_limit, report.b_soft_limit]
                        &&& s.latest_strength == Some(report)
                    },
                    None => {
                        &&& w.latest_soft_limits == worker.latest_soft_limits
                        &&& s.latest_strength == shown.latest_strength
                    },
                },
                _ => {
                    &&& w.latest_soft_limits == worker.latest_soft_limits
                    &&& s.latest_strength == shown.latest_strength
                },
            }
        }),
{
}

/// What was told to a channel, and what is on its way to it, is forgotten when
/// the app leaves and stays through every other event; what was heard, and what is
/// captured, stays through all of them.
pub proof fn law_events_leave_the_rest_alone(
    worker: WorkerView,
    shown: SnapshotView,
    event: EventView,
)
    ensures
        ({
            let (w, s) = worker.after_event(shown, event);
            &&& w.latest_bands == worker.latest_bands
            &&& w.pending_peak_bands == worker.pending_peak_bands
            &&& w.energy == worker.energy && w.onset == worker.onset
            &&& w.drive_mode == worker.drive_mode
            &&& w.speaker == worker.speaker
            &&& w.frame_size == worker.frame_size
            &&& s.latest_band_values == shown.latest_band_values
            &&& s.audio_capture_running == shown.audio_capture_running
            &&& s.audio_input_device == shown.audio_input_device
            &&& event is Disconnected ==> w.channel_active == seq![false, false] && w.last_strength
                == seq![0u16, 0] && w.smoothed_strength == seq![0u16, 0]
            &&& !(event is Disconnected) ==> w.channel_active == worker.channel_active
                && w.last_strength == worker.last_strength && w.smoothed_strength
                == worker.smoothed_strength
            &&& event is Disconnected || event is Connected ==> s.output_strengths == seq![0u16, 0]
            &&& event is Bound || event is AppMessage ==> s.output_strengths
                == shown.output_strengths
            &&& event matches EventView::AppMessage { app_id, message } ==> s.last_app_message
                == Some(message) && w.app_bound == worker.app_bound && s.app_bound
                == shown.app_bound && s.app_connected == shown.app_connected && s.app_id
                == shown.app_id
            &&& !(event is AppMessage) ==> s.last_app_message == shown.last_app_message
        }),
{
}

/// Every event but a plain message is told to the owner in words.
pub proof fn law_events_are_put_into_words(
    worker: WorkerView,
    shown: SnapshotView,
    event: EventView,
)
    ensures
        ({
            let info = worker.after_event(shown, event).1.last_server_info;
            match event {
                EventView::Connected { app_id, requested_path, peer_addr } => info == Some(
                    "app connected: "@ + peer_addr,
                ),
                EventView::Bound { app_id } => info == Some("app bound (200)"@),
                EventView::Disconnected { app_id } => info == Some("app disconnected"@),
                EventView::AppMessage { app_id, message } => match protocol::report_in(message) {
                    Some(r) => info == Some(
                        "strength sync A:"@ + text::decimal(r.a_strength as nat) + " B:"@
                            + text::decimal(r.b_strength as nat) + " softA:"@ + text::decimal(
                            r.a_soft_limit as nat,
                        ) + " softB:"@ + text::decimal(r.b_soft_limit as nat),
                    ),
                    None => if text::has_prefix(
                        text::lower(text::trimmed(message)),
                        "strength-"@,
                    ) {
                        info == Some(
                            "received non-standard strength report: "@ + text::trimmed(message),
                        )
                    } else {
                        info == shown.last_server_info
                    },
                },
            }
        }),
{
}

/// A worker starts without an app, with nothing told or heard, with no limit below
/// the maximum, and with the capture that the settings ask for.
pub proof fn law_workers_start_from_nothing(
    mode: BandDriveMode,
    speaker: Option<Seq<char>>,
    frame_size: usize,
    i: int,
)
    requires
        0 <= i < 4,
    ensures
        ({
            let w = WorkerView::fresh(mode, speaker, frame_size);
            &&& !w.app_bound
            &&& w.channel_active == seq![false, false]
            &&& w.last_strength == seq![0u16, 0]
            &&& w.smoothed_strength == seq![0u16, 0]
            &&& w.latest_soft_limits == seq![200u16, 200]
            &&& w.latest_bands[i].bits == 0 && w.pending_peak_bands[i].bits == 0
            &&& w.energy[i].bits == 0 && w.onset[i].bits == 0
            &&& w.drive_mode == mode && w.speaker == speaker && w.frame_size == frame_size
        }),
{
}

/// The target of a channel is what its bands ask for most, or the app's limit
/// where that is less and counts; each channel goes by its own bands and limit.
pub proof fn law_targets_are_what_the_bands_ask_for(
    settings: PipelineSettings,
    bands: Seq<Level>,
    rises: Seq<u16>,
    limit_a: u16,
    limit_b: u16,
    i: int,
)
    requires
        0 <= i < 4,
    ensures
        ({
            let outputs = mapper::band_outputs(
                bands,
                settings.band_routing@,
                settings.strength_ranges@,
                rises,
            );
            let targets = target_strengths(settings, bands, rises, seq![limit_a, limit_b]);
            let counts = settings.respect_app_soft_limit;
            &&& targets.len() == 2
            &&& outputs[i] matches Some((channel, asked)) ==> {
                &&& channel == DglabChannel::A ==> asked <= targets[0] || (counts && targets[0]
                    == limit_a)
                &&& channel == DglabChannel::B ==> asked <= targets[1] || (counts && targets[1]
                    == limit_b)
            }
            &&& counts ==> targets[0] <= limit_a && targets[1] <= limit_b
            &&& targets[0] == 0 || (counts && targets[0] == limit_a) || outputs.contains(
                Some((DglabChannel::A, targets[0])),
            )
            &&& targets[1] == 0 || (counts && targets[1] == limit_b) || outputs.contains(
                Some((DglabChannel::B, targets[1])),
            )
            &&& (forall|k: int|
                0 <= k < 4 ==> !mapper::drives(#[trigger] outputs[k], DglabChannel::A))
                ==> targets[0] == 0
            &&& (forall|k: int|
                0 <= k < 4 ==> !mapper::drives(#[trigger] outputs[k], DglabChannel::B))
                ==> targets[1] == 0
        }),
{
    let outputs = mapper::band_outputs(
        bands,
        settings.band_routing@,
        settings.strength_ranges@,
        rises,
    );
    mapper::law_strongest_is_the_maximum(outputs, DglabChannel::A);
    mapper::law_strongest_is_the_maximum(outputs, DglabChannel::B);
    assert(mapper::asks_at_most(
        outputs[i],
        DglabChannel::A,
        mapper::strongest(outputs, DglabChannel::A),
    ));
    assert(mapper::asks_at_most(
        outputs[i],
        DglabChannel::B,
        mapper::strongest(outputs, DglabChannel::B),
    ));
}

/// A target that the limit cuts short is the limit itself: it falls short of what
/// the bands ask for only there.
pub proof fn law_limits_cut_no_more_than_they_must(
    settings: PipelineSettings,
    bands: Seq<Level>,
    rises: Seq<u16>,
    limit_a: u16,
    limit_b: u16,
)
    ensures
        ({
            let outputs = mapper::band_outputs(
                bands,
                settings.band_routing@,
                settings.strength_ranges@,
                rises,
            );
            let targets = target_strengths(settings, bands, rises, seq![limit_a, limit_b]);
            let a = mapper::strongest(outputs, DglabChannel::A);
            let b = mapper::strongest(outputs, DglabChannel::B);
            &&& !settings.respect_app_soft_limit || a <= limit_a ==> targets[0] == a
            &&& settings.respect_app_soft_limit && a > limit_a ==> targets[0] == limit_a
            &&& !settings.respect_app_soft_limit || b <= limit_b ==> targets[1] == b
            &&& settings.respect_app_soft_limit && b > limit_b ==> targets[1] == limit_b
        }),
{
}

/// Without smoothing the strengths are at their targets at once; with it each
/// channel goes its own way to its own target.
pub proof fn law_each_channel_goes_its_own_way(
    settings: PipelineSettings,
    current: Seq<u16>,
    targets: Seq<u16>,
    max_step: u16,
    slot: int,
)
    requires
        0 <= slot < 2,
        targets.len() == 2,
    ensures
        ({
            let next = next_strengths(settings, current, targets, max_step);
            let factor = settings.smooth_strength_factor;
            let step = if max_step == 0 {
                1int
            } else if max_step > 200 {
                200
            } else {
                max_step as int
            };
            let gap = targets[slot] - current[slot];
            &&& next.len() == 2
            &&& !settings.smooth_strength_enabled || factor.le(Level { bits: 0 }) ==> next[slot]
                == targets[slot]
            &&& settings.smooth_strength_enabled && (Level { bits: 0 }).lt(factor) ==> {
                &&& gap > step ==> next[slot] == current[slot] + step
                &&& gap < -step ==> next[slot] == current[slot] - step
                &&& -step <= gap <= step ==> next[slot] == targets[slot]
            }
        }),
{
    waveform::law_smoothing_moves_by_the_step(
        current[slot],
        targets[slot],
        settings.smooth_strength_factor.unit(),
        max_step,
    );
}

/// The full wave of a channel is the end of its own range, or the app's limit for
/// it where that is less and counts.
pub proof fn law_full_wave_is_the_reachable_end(
    settings: PipelineSettings,
    soft_limits: Seq<u16>,
    slot: int,
)
    requires
        0 <= slot < 2,
        settings.strength_ranges@[slot].min <= settings.strength_ranges@[slot].max <= 200,
    ensures
        ({
            let end = settings.strength_ranges@[slot].max;
            let limit = soft_limits[slot];
            &&& !settings.respect_app_soft_limit || end <= limit ==> full_wave(
                settings,
                soft_limits,
                slot,
            ) == end
            &&& settings.respect_app_soft_limit && limit < end ==> full_wave(
                settings,
                soft_limits,
                slot,
            ) == limit
        }),
{
}

/// The bands are driven by the energy or by the onset, as the mode says.
pub proof fn law_bands_are_driven_by_the_mode(energy: Seq<Level>, onset: Seq<Level>)
    ensures
        driving_bands(BandDriveMode::Energy, energy, onset) == energy,
        driving_bands(BandDriveMode::Onset, energy, onset) == onset,
{
}

/// Where all levels are numbers between zero and one, the level of a tick is the
/// latest level or the peak, and below neither; a peak is the earlier peak or the
/// new level, and below neither. Every band goes by itself.
pub proof fn law_ticks_see_the_greatest_level(latest: Seq<Level>, pending: Seq<Level>, i: int)
    requires
        0 <= i < 4,
        (Level { bits: 0 }).le(latest[i]) && latest[i].le(Level { bits: 0x3f80_0000 }),
        (Level { bits: 0 }).le(pending[i]) && pending[i].le(Level { bits: 0x3f80_0000 }),
    ensures
        ({
            let seen = merged_bands(latest, pending)[i];
            let raised = raised_peaks(pending, latest)[i];
            &&& seen == latest[i] || seen == pending[i]
            &&& latest[i].le(seen) && pending[i].le(seen)
            &&& raised == latest[i] || raised == pending[i]
            &&& latest[i].le(raised) && pending[i].le(raised)
        }),
{
}

} // verus!
