//! The pipeline between audio analysis and the app: what it keeps, what it
//! tells and what it sends.

use vstd::prelude::*;

use crate::audio::analyzer;
use crate::audio::analyzer::no_bands;
use crate::audio::capture::DEFAULT_ANALYSIS_FRAME_SIZE;
use crate::dglab::pairing;
use crate::dglab::pairing::parse_control_ws_url;
use crate::dglab::protocol::{PacketType, PacketView, SocketPacket, StrengthReport, MAX_JSON_CHARS};
use crate::dglab::server::{DglabWsServerConfig, DglabWsServerStatus, StatusView};
use crate::level::{Level, HALF};
use crate::text;
use crate::text::{copy_optional, push_decimal};
use crate::types::{
    AutoPulseMode, BandDriveMode, BandRouting, DglabChannel, StrengthRange, WaveformPattern,
    WaveformPatternMode, BAND_COUNT,
};

verus! {

/// The usual waveform contrast: 1.8.
pub const USUAL_CONTRAST: u32 = 0x3fe6_6666;

/// The usual smoothness: 0.70.
pub const USUAL_SMOOTHNESS: u32 = 0x3f33_3333;

/// The most items that an automatic pulse message carries.
pub const MAX_AUTO_ITEMS: usize = 8;

#[derive(Debug)]
pub struct PipelineSettings {
    pub band_routing: [BandRouting; BAND_COUNT],
    pub strength_ranges: [StrengthRange; 2],
    pub analysis_frame_size: usize,
    pub pulse_items_per_message: usize,
    pub auto_pulse_mode: AutoPulseMode,
    pub band_drive_mode: BandDriveMode,
    pub waveform_pattern_mode: WaveformPatternMode,
    pub waveform_pattern: WaveformPattern,
    pub waveform_contrast: Level,
    pub respect_app_soft_limit: bool,
    pub smooth_strength_enabled: bool,
    pub smooth_strength_factor: Level,
    pub preferred_output_device_name: Option<String>,
}

impl PipelineSettings {
    /// The speaker that is asked for.
    pub open spec fn speaker(self) -> Option<Seq<char>> {
        text::optional_text(self.preferred_output_device_name)
    }

    /// The settings of a new pipeline.
    pub open spec fn is_usual(self) -> bool {
        &&& self.band_routing@ == Seq::new(
            BAND_COUNT as nat,
            |i: int| BandRouting::standard(true, Level { bits: HALF }, DglabChannel::A),
        )
        &&& self.strength_ranges@ == seq![
            StrengthRange { min: 10, max: 160 },
            StrengthRange { min: 10, max: 160 },
        ]
        &&& self.analysis_frame_size == DEFAULT_ANALYSIS_FRAME_SIZE
        &&& self.pulse_items_per_message == 1
        &&& self.auto_pulse_mode == AutoPulseMode::ByStrength
        &&& self.band_drive_mode == BandDriveMode::Energy
        &&& self.waveform_pattern_mode == WaveformPatternMode::AutoMorph
        &&& self.waveform_pattern == WaveformPattern::Smooth
        &&& self.waveform_contrast.bits == USUAL_CONTRAST
        &&& self.respect_app_soft_limit
        &&& self.smooth_strength_enabled
        &&& self.smooth_strength_factor.bits == USUAL_SMOOTHNESS
        &&& self.preferred_output_device_name is None
    }

    /// The same settings, up to where the speaker's name is held.
    pub open spec fn same_as(self, other: PipelineSettings) -> bool {
        &&& self.speaker() == other.speaker()
        &&& self == (PipelineSettings {
            preferred_output_device_name: self.preferred_output_device_name,
            ..other
        })
    }
}

impl Clone for PipelineSettings {
    fn clone(&self) -> (r: PipelineSettings)
        ensures
            r.same_as(*self),
    {
        PipelineSettings {
            band_routing: self.band_routing,
            strength_ranges: self.strength_ranges,
            analysis_frame_size: self.analysis_frame_size,
            pulse_items_per_message: self.pulse_items_per_message,
            auto_pulse_mode: self.auto_pulse_mode,
            band_drive_mode: self.band_drive_mode,
            waveform_pattern_mode: self.waveform_pattern_mode,
            waveform_pattern: self.waveform_pattern,
            waveform_contrast: self.waveform_contrast,
            respect_app_soft_limit: self.respect_app_soft_limit,
            smooth_strength_enabled: self.smooth_strength_enabled,
            smooth_strength_factor: self.smooth_strength_factor,
            preferred_output_device_name: copy_optional(&self.preferred_output_device_name),
        }
    }
}

impl Default for PipelineSettings {
    fn default() -> (r: PipelineSettings)
        ensures
            r.is_usual(),
    {
        let route = BandRouting::default();
        let band_routing = [route, route, route, route];
        let strength_ranges = [StrengthRange::new(10, 160), StrengthRange::new(10, 160)];
        assert(band_routing@ =~= Seq::new(
            BAND_COUNT as nat,
            |i: int| BandRouting::standard(true, Level { bits: HALF }, DglabChannel::A),
        ));
        PipelineSettings {
            band_routing,
            strength_ranges,
            analysis_frame_size: DEFAULT_ANALYSIS_FRAME_SIZE,
            pulse_items_per_message: 1,
            auto_pulse_mode: AutoPulseMode::ByStrength,
            band_drive_mode: BandDriveMode::Energy,
            waveform_pattern_mode: WaveformPatternMode::AutoMorph,
            waveform_pattern: WaveformPattern::Smooth,
            waveform_contrast: Level::from_bits(USUAL_CONTRAST),
            respect_app_soft_limit: true,
            smooth_strength_enabled: true,
            smooth_strength_factor: Level::from_bits(USUAL_SMOOTHNESS),
            preferred_output_device_name: None,
        }
    }
}

/// What the pipeline shows of itself.
#[derive(Debug)]
pub struct EngineSnapshot {
    pub app_connected: bool,
    pub app_bound: bool,
    pub app_id: Option<String>,
    pub latest_strength: Option<StrengthReport>,
    pub output_strengths: [u16; 2],
    pub latest_band_values: [Level; BAND_COUNT],
    pub audio_capture_running: bool,
    pub audio_input_device: Option<String>,
    pub last_app_message: Option<String>,
    pub last_server_info: Option<String>,
}

#[verifier::ext_equal]
pub struct SnapshotView {
    pub app_connected: bool,
    pub app_bound: bool,
    pub app_id: Option<Seq<char>>,
    pub latest_strength: Option<StrengthReport>,
    pub output_strengths: Seq<u16>,
    pub latest_band_values: Seq<Level>,
    pub audio_capture_running: bool,
    pub audio_input_device: Option<Seq<char>>,
    pub last_app_message: Option<Seq<char>>,
    pub last_server_info: Option<Seq<char>>,
}

/// No strength on either channel.
pub open spec fn no_strengths() -> Seq<u16> {
    seq![0u16, 0]
}

impl SnapshotView {
    /// What is shown before anything has happened.
    pub open spec fn blank() -> SnapshotView {
        SnapshotView {
            app_connected: false,
            app_bound: false,
            app_id: None,
            latest_strength: None,
            output_strengths: no_strengths(),
            latest_band_values: analyzer::silent_bands(),
            audio_capture_running: false,
            audio_input_device: None,
            last_app_message: None,
            last_server_info: None,
        }
    }

    pub open spec fn told(self, info: Seq<char>) -> SnapshotView {
        SnapshotView { last_server_info: Some(info), ..self }
    }

    /// What is shown once the app and the audio are gone.
    pub open spec fn at_rest(self, info: Seq<char>) -> SnapshotView {
        SnapshotView {
            app_connected: false,
            app_bound: false,
            app_id: None,
            output_strengths: no_strengths(),
            audio_capture_running: false,
            audio_input_device: None,
            last_server_info: Some(info),
            ..self
        }
    }
}

impl View for EngineSnapshot {
    type V = SnapshotView;

    open spec fn view(&self) -> SnapshotView {
        SnapshotView {
            app_connected: self.app_connected,
            app_bound: self.app_bound,
            app_id: text::optional_text(self.app_id),
            latest_strength: self.latest_strength,
            output_strengths: self.output_strengths@,
            latest_band_values: self.latest_band_values@,
            audio_capture_running: self.audio_capture_running,
            audio_input_device: text::optional_text(self.audio_input_device),
            last_app_message: text::optional_text(self.last_app_message),
            last_server_info: text::optional_text(self.last_server_info),
        }
    }
}

impl Default for EngineSnapshot {
    fn default() -> (r: EngineSnapshot)
        ensures
            r@ == SnapshotView::blank(),
    {
        let r = EngineSnapshot {
            app_connected: false,
            app_bound: false,
            app_id: None,
            latest_strength: None,
            output_strengths: [0, 0],
            latest_band_values: no_bands(),
            audio_capture_running: false,
            audio_input_device: None,
            last_app_message: None,
            last_server_info: None,
        };
        assert(r@ =~= SnapshotView::blank());
        r
    }
}

impl Clone for EngineSnapshot {
    fn clone(&self) -> (r: EngineSnapshot)
        ensures
            r@ == self@,
    {
        EngineSnapshot {
            app_connected: self.app_connected,
            app_bound: self.app_bound,
            app_id: copy_optional(&self.app_id),
            latest_strength: self.latest_strength,
            output_strengths: self.output_strengths,
            latest_band_values: self.latest_band_values,
            audio_capture_running: self.audio_capture_running,
            audio_input_device: copy_optional(&self.audio_input_device),
            last_app_message: copy_optional(&self.last_app_message),
            last_server_info: copy_optional(&self.last_server_info),
        }
    }
}

impl EngineSnapshot {
    fn tell(&mut self, info: String)
        ensures
            final(self)@ == old(self)@.told(info@),
    {
        self.last_server_info = Some(info);
    }

    fn rest(&mut self, info: &str)
        ensures
            final(self)@ == old(self)@.at_rest(info@),
    {
        self.app_connected = false;
        self.app_bound = false;
        self.app_id = None;
        self.output_strengths = [0, 0];
        self.audio_capture_running = false;
        self.audio_input_device = None;
        self.last_server_info = Some(info.to_owned());
        assert(self.output_strengths@ =~= no_strengths());
    }

    /// The server has ended with an error.
    pub fn server_failed(&mut self, error: &str)
        ensures
            final(self)@ == old(self)@.told("ws server error: "@ + error@),
    {
        let mut info = "ws server error: ".to_owned();
        info.append(error);
        self.tell(info);
    }

    /// The server's task has gone.
    pub fn server_lost(&mut self, error: &str)
        ensures
            final(self)@ == old(self)@.told("ws server join error: "@ + error@),
    {
        let mut info = "ws server join error: ".to_owned();
        info.append(error);
        self.tell(info);
    }

    /// No more analysed frames will come.
    pub fn bands_closed(&mut self)
        ensures
            final(self)@ == (SnapshotView {
                audio_capture_running: false,
                ..old(self)@
            }).told("audio band stream closed"@),
    {
        self.audio_capture_running = false;
        self.last_server_info = Some("audio band stream closed".to_owned());
    }

    /// The worker has ended.
    pub fn worker_stopped(&mut self)
        ensures
            final(self)@ == old(self)@.at_rest("pipeline worker stopped"@),
    {
        self.rest("pipeline worker stopped");
    }
}

/// The pipeline as its owner sees it.
#[derive(Debug)]
pub struct PipelineEngine {
    pub settings: PipelineSettings,
    pub snapshot: EngineSnapshot,
}

/// What a message check depends on: whether the worker runs, the server's
/// status and whether messages can be handed to it.
pub open spec fn message_outcome(
    running: bool,
    status: Option<StatusView>,
    has_control: bool,
    message: Seq<char>,
) -> Result<(), Seq<char>> {
    if !running {
        Err("ws server is not running"@)
    } else {
        match status {
            None => Err("ws server status channel unavailable"@),
            Some(status) => match status.app_id {
                None => Err("app is not connected yet"@),
                Some(app_id) => {
                    let size = PacketView::of(
                        PacketType::Msg,
                        status.controller_id,
                        app_id,
                        message,
                    ).json().len();
                    if !status.app_bound {
                        Err("app not bound yet. scan QR and wait for bind=200 first"@)
                    } else if size > MAX_JSON_CHARS {
                        Err(
                            "message too long after JSON wrapping: "@ + text::decimal(size)
                                + " > "@ + text::decimal(MAX_JSON_CHARS as nat),
                        )
                    } else if !has_control {
                        Err("ws server command channel unavailable"@)
                    } else {
                        Ok(())
                    }
                },
            },
        }
    }
}

/// The status that an optional reference holds.
pub open spec fn some_status(status: Option<&DglabWsServerStatus>) -> Option<StatusView> {
    match status {
        Some(s) => Some(s@),
        None => None,
    }
}

/// What is shown while the server of a control address starts.
pub open spec fn starting(url: pairing::ControlUrl) -> SnapshotView {
    SnapshotView::blank().told(
        "ws server starting on "@ + bind_address(url.port) + ", session="@ + url.session_id,
    )
}

/// All interfaces, at the port.
pub open spec fn bind_address(port: u16) -> Seq<char> {
    "0.0.0.0:"@ + text::decimal(port as nat)
}

impl PipelineEngine {
    pub fn new() -> (r: PipelineEngine)
        ensures
            r.snapshot@ == SnapshotView::blank(),
            r.settings.is_usual(),
    {
        PipelineEngine {
            settings: PipelineSettings::default(),
            snapshot: EngineSnapshot::default(),
        }
    }

    pub fn update_settings(&mut self, settings: PipelineSettings)
        ensures
            final(self).settings == settings,
            final(self).snapshot == old(self).snapshot,
    {
        self.settings = settings;
    }

    /// Prepares a start: gives the server's settings, or nothing where the
    /// worker runs already. A text that is no control address is refused.
    pub fn start(&mut self, running: bool, ws_url: &str) -> (r: Result<
        Option<DglabWsServerConfig>,
        String,
    >)
        ensures
            final(self).settings == old(self).settings,
            match r {
                Ok(None) => running && final(self).snapshot == old(self).snapshot,
                Ok(Some(config)) => {
                    &&& !running
                    &&& pairing::control_url_in(ws_url@) is Some
                    &&& config.bind_addr@ == bind_address(
                        pairing::control_url_in(ws_url@)->0.port,
                    )
                    &&& config.controller_id@ == pairing::control_url_in(ws_url@)->0.session_id
                    &&& config.max_json_chars == MAX_JSON_CHARS
                    &&& final(self).snapshot@ == starting(pairing::control_url_in(ws_url@)->0)
                },
                Err(message) => {
                    &&& !running
                    &&& pairing::control_url_in(ws_url@) is None
                    &&& message@ == "invalid ws url. expected ws://<host>:<port>/<session-id>"@
                    &&& final(self).snapshot == old(self).snapshot
                },
            },
    {
        if running {
            return Ok(None);
        }
        let parsed = match parse_control_ws_url(ws_url) {
            Some(parsed) => parsed,
            None => {
                return Err(
                    "invalid ws url. expected ws://<host>:<port>/<session-id>".to_owned(),
                );
            },
        };
        let mut bind_addr = "0.0.0.0:".to_owned();
        push_decimal(&mut bind_addr, parsed.port as u64);
        let mut info = "ws server starting on ".to_owned();
        info.append(bind_addr.as_str());
        info.append(", session=");
        info.append(parsed.session_id.as_str());
        let mut snapshot = EngineSnapshot::default();
        snapshot.tell(info);
        self.snapshot = snapshot;
        Ok(Some(DglabWsServerConfig::new(bind_addr.as_str(), parsed.session_id.as_str())))
    }

    /// The worker is gone.
    pub fn stop(&mut self)
        ensures
            final(self).settings == old(self).settings,
            final(self).snapshot@ == old(self).snapshot@.at_rest("ws server stopped"@),
    {
        self.snapshot.rest("ws server stopped");
    }

    /// Stops the worker and prepares a start.
    pub fn restart(&mut self, ws_url: &str) -> (r: Result<Option<DglabWsServerConfig>, String>)
        ensures
            final(self).settings == old(self).settings,
            match r {
                Ok(None) => false,
                Ok(Some(config)) => {
                    &&& pairing::control_url_in(ws_url@) is Some
                    &&& config.bind_addr@ == bind_address(
                        pairing::control_url_in(ws_url@)->0.port,
                    )
                    &&& config.controller_id@ == pairing::control_url_in(ws_url@)->0.session_id
                    &&& config.max_json_chars == MAX_JSON_CHARS
                    &&& final(self).snapshot@ == starting(pairing::control_url_in(ws_url@)->0)
                },
                Err(message) => {
                    &&& pairing::control_url_in(ws_url@) is None
                    &&& message@ == "invalid ws url. expected ws://<host>:<port>/<session-id>"@
                    &&& final(self).snapshot@ == old(self).snapshot@.at_rest("ws server stopped"@)
                },
            },
    {
        self.stop();
        self.start(false, ws_url)
    }

    /// Whether a message of the owner can go to the app, or why not.
    pub fn send_app_message(
        &self,
        running: bool,
        status: Option<&DglabWsServerStatus>,
        has_control: bool,
        message: &str,
    ) -> (r: Result<(), String>)
        ensures
            match r {
                Ok(()) => message_outcome(running, some_status(status), has_control, message@) is Ok,
                Err(error) => message_outcome(running, some_status(status), has_control, message@)
                    == Err::<(), Seq<char>>(error@),
            },
    {
        if !running {
            return Err("ws server is not running".to_owned());
        }
        let status = match status {
            Some(status) => status,
            None => return Err("ws server status channel unavailable".to_owned()),
        };
        let app_id = match &status.app_id {
            Some(app_id) => app_id,
            None => return Err("app is not connected yet".to_owned()),
        };
        if !status.app_bound {
            return Err("app not bound yet. scan QR and wait for bind=200 first".to_owned());
        }
        let packet = SocketPacket::msg(status.controller_id.as_str(), app_id.as_str(), message);
        let packet_text = match packet.to_json() {
            Ok(packet_text) => packet_text,
            Err(error) => return Err(error),
        };
        let size: usize = packet_text.as_str().unicode_len();
        if size > MAX_JSON_CHARS {
            let mut error = "message too long after JSON wrapping: ".to_owned();
            push_decimal(&mut error, size as u64);
            error.append(" > ");
            push_decimal(&mut error, MAX_JSON_CHARS as u64);
            return Err(error);
        }
        if !has_control {
            return Err("ws server command channel unavailable".to_owned());
        }
        Ok(())
    }

    pub fn snapshot(&self) -> (r: EngineSnapshot)
        ensures
            r@ == self.snapshot@,
    {
        self.snapshot.clone()
    }
}

impl Default for PipelineEngine {
    fn default() -> (r: PipelineEngine)
        ensures
            r.snapshot@ == SnapshotView::blank(),
            r.settings.is_usual(),
    {
        PipelineEngine::new()
    }
}

/// A message goes to a bound app only, and never in a packet that the app would
/// refuse as too long.
pub proof fn law_accepted_message_fits(
    running: bool,
    status: Option<StatusView>,
    has_control: bool,
    message: Seq<char>,
)
    requires
        message_outcome(running, status, has_control, message) is Ok,
    ensures
        running,
        status matches Some(s) && s.app_bound && s.app_id is Some && PacketView::of(
            PacketType::Msg,
            s.controller_id,
            s.app_id->0,
            message,
        ).json().len() <= MAX_JSON_CHARS,
{
}

/// A message is refused for the first of these reasons that holds, and for no
/// other: the server does not run, its status is not known, no app is connected,
/// the app is not bound, the packet has more than 1950 characters, or messages
/// cannot be handed over.
pub proof fn law_messages_are_refused_for_the_first_reason(
    running: bool,
    status: Option<StatusView>,
    has_control: bool,
    message: Seq<char>,
)
    ensures
        ({
            let outcome = message_outcome(running, status, has_control, message);
            let known = running && status is Some;
            let connected = known && status->0.app_id is Some;
            let size = (PacketView {
                packet_type: "msg"@,
                client_id: status->0.controller_id,
                target_id: status->0.app_id->0,
                message,
            }).json().len();
            &&& outcome is Ok <==> connected && status->0.app_bound && size <= 1950 && has_control
            &&& !running ==> outcome == Err::<(), Seq<char>>("ws server is not running"@)
            &&& running && status is None ==> outcome == Err::<(), Seq<char>>(
                "ws server status channel unavailable"@,
            )
            &&& known && status->0.app_id is None ==> outcome == Err::<(), Seq<char>>(
                "app is not connected yet"@,
            )
            &&& connected && !status->0.app_bound ==> outcome == Err::<(), Seq<char>>(
                "app not bound yet. scan QR and wait for bind=200 first"@,
            )
            &&& connected && status->0.app_bound && size > 1950 ==> outcome == Err::<
                (),
                Seq<char>,
            >(
                "message too long after JSON wrapping: "@ + text::decimal(size) + " > "@
                    + text::decimal(1950),
            )
            &&& connected && status->0.app_bound && size <= 1950 && !has_control ==> outcome
                == Err::<(), Seq<char>>("ws server command channel unavailable"@)
        }),
{
}

/// The server listens on all interfaces at the port of the address; while it
/// starts nothing is shown but that.
pub proof fn law_a_start_shows_where_it_listens(url: pairing::ControlUrl)
    ensures
        bind_address(url.port) == "0.0.0.0:"@ + text::decimal(url.port as nat),
        ({
            let s = starting(url);
            &&& s.last_server_info == Some(
                "ws server starting on 0.0.0.0:"@ + text::decimal(url.port as nat) + ", session="@
                    + url.session_id,
            )
            &&& !s.app_connected && !s.app_bound && s.app_id is None
            &&& s.latest_strength is None && s.last_app_message is None
            &&& s.output_strengths == seq![0u16, 0]
            &&& !s.audio_capture_running && s.audio_input_device is None
        }),
{
    reveal_strlit("ws server starting on ");
    reveal_strlit("0.0.0.0:");
    reveal_strlit("ws server starting on 0.0.0.0:");
    assert("ws server starting on "@ + bind_address(url.port) + ", session="@ + url.session_id
        =~= "ws server starting on 0.0.0.0:"@ + text::decimal(url.port as nat) + ", session="@
        + url.session_id);
}

/// At rest neither an app nor a capture nor any strength is shown; what was heard
/// before stays.
pub proof fn law_rest_shows_nobody(shown: SnapshotView, info: Seq<char>)
    ensures
        ({
            let s = shown.at_rest(info);
            &&& !s.app_connected && !s.app_bound && s.app_id is None
            &&& s.output_strengths == seq![0u16, 0]
            &&& !s.audio_capture_running && s.audio_input_device is None
            &&& s.last_server_info == Some(info)
            &&& s.latest_strength == shown.latest_strength
            &&& s.latest_band_values == shown.latest_band_values
            &&& s.last_app_message == shown.last_app_message
        }),
        shown.told(info) == (SnapshotView { last_server_info: Some(info), ..shown }),
{
}

/// A new pipeline sends every band to channel A at half, with the standard times,
/// one item a message; it is by strength and energy, smooth, within the app's
/// limits and on the speaker in use.
pub proof fn law_new_settings(settings: PipelineSettings, i: int)
    requires
        settings.is_usual(),
        0 <= i < 4,
    ensures
        settings.band_routing@[i] == (BandRouting {
            enabled: true,
            threshold: Level { bits: 0x3f00_0000 },
            channel: DglabChannel::A,
            attack_ms: 60,
            hold_ms: 140,
            release_ms: 260,
        }),
        settings.strength_ranges@[0] == (StrengthRange { min: 10, max: 160 }),
        settings.strength_ranges@[1] == (StrengthRange { min: 10, max: 160 }),
        settings.analysis_frame_size == 1024,
        settings.pulse_items_per_message == 1,
        settings.auto_pulse_mode == AutoPulseMode::ByStrength,
        settings.band_drive_mode == BandDriveMode::Energy,
        settings.waveform_pattern_mode == WaveformPatternMode::AutoMorph,
        settings.waveform_pattern == WaveformPattern::Smooth,
        settings.waveform_contrast.bits == 0x3fe6_6666,
        settings.respect_app_soft_limit && settings.smooth_strength_enabled,
        settings.smooth_strength_factor.bits == 0x3f33_3333,
        settings.speaker() is None,
{
}

/// Settings that are the same agree on everything that they ask for.
pub proof fn law_same_settings_agree(a: PipelineSettings, b: PipelineSettings)
    requires
        a.same_as(b),
    ensures
        a.band_routing == b.band_routing,
        a.strength_ranges == b.strength_ranges,
        a.analysis_frame_size == b.analysis_frame_size,
        a.pulse_items_per_message == b.pulse_items_per_message,
        a.auto_pulse_mode == b.auto_pulse_mode,
        a.band_drive_mode == b.band_drive_mode,
        a.waveform_pattern_mode == b.waveform_pattern_mode,
        a.waveform_pattern == b.waveform_pattern,
        a.waveform_contrast == b.waveform_contrast,
        a.respect_app_soft_limit == b.respect_app_soft_limit,
        a.smooth_strength_enabled == b.smooth_strength_enabled,
        a.smooth_strength_factor == b.smooth_strength_factor,
        a.speaker() == b.speaker(),
{
}

/// Before anything has happened nothing is shown.
pub proof fn law_nothing_is_shown_at_first(i: int)
    requires
        0 <= i < 4,
    ensures
        ({
            let s = SnapshotView::blank();
            &&& !s.app_connected && !s.app_bound && s.app_id is None && s.latest_strength is None
            &&& s.output_strengths == seq![0u16, 0]
            &&& s.latest_band_values.len() == 4 && s.latest_band_values[i].bits == 0
            &&& !s.audio_capture_running && s.audio_input_device is None
            &&& s.last_app_message is None && s.last_server_info is None
        }),
{
}

} // verus!
