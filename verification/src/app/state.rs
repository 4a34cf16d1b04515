//! The state of the window.

use vstd::prelude::*;

use crate::app::i18n::UiLanguage;
use crate::app::scenes;
use crate::app::scenes::{
    empty_scene_slots, SavedScene, SceneConfig, SceneView, USER_SCENE_SLOT_COUNT,
};
use crate::audio::analyzer;
use crate::audio::analyzer::no_bands;
use crate::audio::capture;
use crate::audio::capture::{normalize_analysis_frame_size, DEFAULT_ANALYSIS_FRAME_SIZE};
use crate::dglab::pairing;
use crate::dglab::pairing::{
    auto_detect_lan_ws_url, replace_host_in_ws_url, rotate_session_id_in_ws_url, FALLBACK_HOST,
};
use crate::dglab::protocol::{StrengthControlMode, StrengthReport};
use crate::level::{Level, FOUR, ONE};
use crate::pipeline::engine;
use crate::pipeline::engine::{USUAL_CONTRAST, USUAL_SMOOTHNESS};
use crate::session_id;
use crate::text;
use crate::types::{
    default_band_routing, AutoPulseMode, BandDriveMode, BandRouting, DglabChannel, StrengthRange,
    WaveformPattern, WaveformPatternMode, BAND_COUNT, MAX_STRENGTH,
};

verus! {

/// The pulse items that the debug panel begins with.
pub const SAMPLE_PULSE_VALUES: &'static str =
    "0A0A0A0A0A0A0A0A 0A0A0A0A0A0A0A0A 0A0A0A0A0A0A0A0A 0A0A0A0A0A0A0A0A";

#[derive(Debug)]
pub struct AppState {
    pub language: UiLanguage,
    pub websocket_url: String,
    pub band_routing: [BandRouting; BAND_COUNT],
    pub band_values: [Level; BAND_COUNT],
    pub strength_range_a: StrengthRange,
    pub strength_range_b: StrengthRange,
    pub debug_strength_channel: DglabChannel,
    pub debug_strength_mode: StrengthControlMode,
    pub debug_strength_value: u16,
    pub debug_clear_channel: DglabChannel,
    pub debug_pulse_channel: DglabChannel,
    pub debug_pulse_values: String,
    pub last_protocol_action: Option<String>,
    pub app_connected: bool,
    pub app_bound: bool,
    pub app_id: Option<String>,
    pub app_strength_report: Option<StrengthReport>,
    pub output_strengths: [u16; 2],
    pub auto_limit_with_app_soft_limit: bool,
    pub auto_pulse_mode: AutoPulseMode,
    pub band_drive_mode: BandDriveMode,
    pub waveform_pattern_mode: WaveformPatternMode,
    pub waveform_pattern: WaveformPattern,
    pub waveform_contrast: Level,
    pub smooth_strength_enabled: bool,
    pub smooth_strength_factor: Level,
    pub saved_scenes: Vec<Option<SavedScene>>,
    pub last_app_message: Option<String>,
    pub last_server_info: Option<String>,
    pub audio_capture_running: bool,
    pub audio_input_device: Option<String>,
    pub analysis_frame_size: usize,
    pub available_output_devices: Vec<String>,
    pub selected_output_device: Option<String>,
    pub running: bool,
    pub last_error: Option<String>,
}

impl AppState {
    /// The part of the state that a scene keeps.
    pub open spec fn scene(self) -> SceneView {
        SceneView {
            band_routing: self.band_routing@,
            strength_range_a: self.strength_range_a,
            strength_range_b: self.strength_range_b,
            auto_pulse_mode: self.auto_pulse_mode,
            band_drive_mode: self.band_drive_mode,
            waveform_pattern_mode: self.waveform_pattern_mode,
            waveform_pattern: self.waveform_pattern,
            waveform_contrast: self.waveform_contrast,
            smooth_strength_enabled: self.smooth_strength_enabled,
            smooth_strength_factor: self.smooth_strength_factor,
        }
    }

    /// This state with the scene of another.
    pub open spec fn with_scene_of(self, other: AppState) -> AppState {
        AppState {
            band_routing: other.band_routing,
            strength_range_a: other.strength_range_a,
            strength_range_b: other.strength_range_b,
            auto_pulse_mode: other.auto_pulse_mode,
            band_drive_mode: other.band_drive_mode,
            waveform_pattern_mode: other.waveform_pattern_mode,
            waveform_pattern: other.waveform_pattern,
            waveform_contrast: other.waveform_contrast,
            smooth_strength_enabled: other.smooth_strength_enabled,
            smooth_strength_factor: other.smooth_strength_factor,
            ..self
        }
    }

    /// Nothing has happened yet.
    pub open spec fn is_fresh(self) -> bool {
        &&& self.language == UiLanguage::En
        &&& self.scene() == SceneView::usual()
        &&& self.band_values@ == analyzer::silent_bands()
        &&& self.debug_strength_channel == DglabChannel::A
        &&& self.debug_strength_mode == StrengthControlMode::SetValue
        &&& self.debug_strength_value == 50
        &&& self.debug_clear_channel == DglabChannel::A
        &&& self.debug_pulse_channel == DglabChannel::A
        &&& self.debug_pulse_values@
            == "0A0A0A0A0A0A0A0A 0A0A0A0A0A0A0A0A 0A0A0A0A0A0A0A0A 0A0A0A0A0A0A0A0A"@
        &&& self.last_protocol_action is None
        &&& !self.app_connected && !self.app_bound && self.app_id is None
        &&& self.app_strength_report is None
        &&& self.output_strengths@ == engine::no_strengths()
        &&& self.auto_limit_with_app_soft_limit
        &&& self.saved_scenes@.len() == USER_SCENE_SLOT_COUNT
        &&& scenes::slot_views(self.saved_scenes@) == scenes::no_scenes()
        &&& self.last_app_message is None && self.last_server_info is None
        &&& !self.audio_capture_running && self.audio_input_device is None
        &&& self.analysis_frame_size == DEFAULT_ANALYSIS_FRAME_SIZE
        &&& self.available_output_devices@.len() == 0
        &&& self.selected_output_device is None
        &&& !self.running && self.last_error is None
    }

    /// The app's limit for a channel, as far as it has been reported.
    pub open spec fn soft_limit(self, channel: DglabChannel) -> Option<u16> {
        match self.app_strength_report {
            Some(report) => Some(
                match channel {
                    DglabChannel::A => report.a_soft_limit,
                    DglabChannel::B => report.b_soft_limit,
                },
            ),
            None => None,
        }
    }

    /// The app's strength on a channel, as far as it has been reported.
    pub open spec fn current_strength(self, channel: DglabChannel) -> Option<u16> {
        match self.app_strength_report {
            Some(report) => Some(
                match channel {
                    DglabChannel::A => report.a_strength,
                    DglabChannel::B => report.b_strength,
                },
            ),
            None => None,
        }
    }

    /// The end of a channel's sliders: the app's limit where it counts and is
    /// known.
    pub open spec fn slider_max(self, channel: DglabChannel) -> u16 {
        if self.auto_limit_with_app_soft_limit {
            self.soft_limit(channel).unwrap_or(MAX_STRENGTH)
        } else {
            MAX_STRENGTH
        }
    }

    /// The state of a new window, with the given address.
    pub fn new(websocket_url: String) -> (r: AppState)
        ensures
            r.is_fresh(),
            r.websocket_url@ == websocket_url@,
    {
        let r = AppState {
            language: UiLanguage::En,
            websocket_url,
            band_routing: default_band_routing(),
            band_values: no_bands(),
            strength_range_a: StrengthRange::new(10, 160),
            strength_range_b: StrengthRange::new(10, 160),
            debug_strength_channel: DglabChannel::A,
            debug_strength_mode: StrengthControlMode::SetValue,
            debug_strength_value: 50,
            debug_clear_channel: DglabChannel::A,
            debug_pulse_channel: DglabChannel::A,
            debug_pulse_values: SAMPLE_PULSE_VALUES.to_owned(),
            last_protocol_action: None,
            app_connected: false,
            app_bound: false,
            app_id: None,
            app_strength_report: None,
            output_strengths: [0, 0],
            auto_limit_with_app_soft_limit: true,
            auto_pulse_mode: AutoPulseMode::ByStrength,
            band_drive_mode: BandDriveMode::Energy,
            waveform_pattern_mode: WaveformPatternMode::AutoMorph,
            waveform_pattern: WaveformPattern::Smooth,
            waveform_contrast: Level::from_bits(USUAL_CONTRAST),
            smooth_strength_enabled: true,
            smooth_strength_factor: Level::from_bits(USUAL_SMOOTHNESS),
            saved_scenes: empty_scene_slots(),
            last_app_message: None,
            last_server_info: None,
            audio_capture_running: false,
            audio_input_device: None,
            analysis_frame_size: DEFAULT_ANALYSIS_FRAME_SIZE,
            available_output_devices: Vec::new(),
            selected_output_device: None,
            running: false,
            last_error: None,
        };
        assert(r.output_strengths@ =~= engine::no_strengths());
        r
    }

    /// The present scene, tidied.
    pub fn capture_scene_config(&self) -> (r: SceneConfig)
        ensures
            r@ == self.scene().tidied(),
    {
        let config = SceneConfig {
            band_routing: self.band_routing,
            strength_range_a: self.strength_range_a,
            strength_range_b: self.strength_range_b,
            auto_pulse_mode: self.auto_pulse_mode,
            band_drive_mode: self.band_drive_mode,
            waveform_pattern_mode: self.waveform_pattern_mode,
            waveform_pattern: self.waveform_pattern,
            waveform_contrast: self.waveform_contrast,
            smooth_strength_enabled: self.smooth_strength_enabled,
            smooth_strength_factor: self.smooth_strength_factor,
        };
        assert(config@ =~= self.scene());
        config.sanitized()
    }

    /// Brings a scene back, tidied.
    pub fn apply_scene_config(&mut self, config: &SceneConfig)
        ensures
            final(self).scene() == config@.tidied(),
            *final(self) == old(self).with_scene_of(*final(self)),
    {
        let config = config.sanitized();
        self.band_routing = config.band_routing;
        self.strength_range_a = config.strength_range_a;
        self.strength_range_b = config.strength_range_b;
        self.auto_pulse_mode = config.auto_pulse_mode;
        self.band_drive_mode = config.band_drive_mode;
        self.waveform_pattern_mode = config.waveform_pattern_mode;
        self.waveform_pattern = config.waveform_pattern;
        self.waveform_contrast = config.waveform_contrast;
        self.smooth_strength_enabled = config.smooth_strength_enabled;
        self.smooth_strength_factor = config.smooth_strength_factor;
        assert(self.scene() =~= config@);
    }

    /// Brings a scene back but keeps the strength ranges.
    pub fn apply_factory_scene_config(&mut self, config: &SceneConfig)
        ensures
            final(self).scene() == (SceneView {
                strength_range_a: old(self).strength_range_a,
                strength_range_b: old(self).strength_range_b,
                ..config@.tidied()
            }),
            *final(self) == old(self).with_scene_of(*final(self)),
    {
        let preserved_a = self.strength_range_a;
        let preserved_b = self.strength_range_b;
        self.apply_scene_config(config);
        self.strength_range_a = preserved_a;
        self.strength_range_b = preserved_b;
    }

    pub fn clear_error(&mut self)
        ensures
            *final(self) == (AppState { last_error: None, ..*old(self) }),
    {
        self.last_error = None;
    }

    pub fn set_error(&mut self, message: String)
        ensures
            *final(self) == (AppState { last_error: Some(message), ..*old(self) }),
    {
        self.last_error = Some(message);
    }

    pub fn set_protocol_action(&mut self, message: String)
        ensures
            *final(self) == (AppState { last_protocol_action: Some(message), ..*old(self) }),
    {
        self.last_protocol_action = Some(message);
    }

    pub fn app_soft_limit_for_channel(&self, channel: DglabChannel) -> (r: Option<u16>)
        ensures
            r == self.soft_limit(channel),
    {
        match self.app_strength_report {
            Some(report) => Some(
                match channel {
                    DglabChannel::A => report.a_soft_limit,
                    DglabChannel::B => report.b_soft_limit,
                },
            ),
            None => None,
        }
    }

    pub fn app_current_strength_for_channel(&self, channel: DglabChannel) -> (r: Option<u16>)
        ensures
            r == self.current_strength(channel),
    {
        match self.app_strength_report {
            Some(report) => Some(
                match channel {
                    DglabChannel::A => report.a_strength,
                    DglabChannel::B => report.b_strength,
                },
            ),
            None => None,
        }
    }

    pub fn effective_strength_slider_max_for_channel(&self, channel: DglabChannel) -> (r: u16)
        ensures
            r == self.slider_max(channel),
    {
        if !self.auto_limit_with_app_soft_limit {
            return MAX_STRENGTH;
        }
        self.app_soft_limit_for_channel(channel).unwrap_or(MAX_STRENGTH)
    }

    pub fn effective_debug_strength_slider_max(&self, channel: DglabChannel) -> (r: u16)
        ensures
            r == self.slider_max(channel),
    {
        if !self.auto_limit_with_app_soft_limit {
            return MAX_STRENGTH;
        }
        self.app_soft_limit_for_channel(channel).unwrap_or(MAX_STRENGTH)
    }

    pub fn normalized_smooth_strength_factor(&self) -> (r: Level)
        ensures
            r == self.smooth_strength_factor.unit(),
    {
        self.smooth_strength_factor.clamp_unit()
    }

    pub fn normalized_waveform_contrast(&self) -> (r: Level)
        ensures
            r == scenes::tidy_contrast(self.waveform_contrast),
    {
        self.waveform_contrast.clamp_to(Level::from_bits(ONE), Level::from_bits(FOUR))
    }

    pub fn normalized_analysis_frame_size(&self) -> (r: usize)
        ensures
            r == capture::tidy_frame_size(self.analysis_frame_size),
    {
        normalize_analysis_frame_size(self.analysis_frame_size)
    }

    /// Gives the address a new session.
    pub fn rotate_session_id(&mut self, detected_host: Option<&str>)
        ensures
            exists|id: Seq<char>| #[trigger]
                session_id::is_session_id(id) && final(self).websocket_url@
                    == pairing::with_session(
                    old(self).websocket_url@,
                    id,
                    pairing::session_url(
                        pairing::host_or_fallback(text::some_text(detected_host)),
                        id,
                    ),
                ),
            *final(self) == (AppState { websocket_url: final(self).websocket_url, ..*old(self) }),
    {
        self.websocket_url = rotate_session_id_in_ws_url(
            self.websocket_url.as_str(),
            detected_host,
        );
    }

    /// Puts the detected host into the address, or the loopback address where
    /// none was detected. Gives whether there was one.
    pub fn refresh_lan_ws_url(&mut self, detected_host: Option<&str>) -> (r: bool)
        ensures
            r == detected_host is Some,
            exists|id: Seq<char>| #[trigger]
                session_id::is_session_id(id) && final(self).websocket_url@ == pairing::with_host(
                    old(self).websocket_url@,
                    pairing::host_or_fallback(text::some_text(detected_host)),
                    id,
                ),
            *final(self) == (AppState { websocket_url: final(self).websocket_url, ..*old(self) }),
    {
        match auto_detect_lan_ws_url(self.websocket_url.as_str(), detected_host) {
            Some(url) => {
                self.websocket_url = url;
                true
            },
            None => {
                self.websocket_url = replace_host_in_ws_url(
                    self.websocket_url.as_str(),
                    FALLBACK_HOST,
                );
                false
            },
        }
    }
}

/// What the app has reported of a channel is read off its own fields; without a
/// report nothing is known.
pub proof fn law_reports_are_read_by_channel(state: AppState)
    ensures
        state.app_strength_report matches Some(report) ==> {
            &&& state.current_strength(DglabChannel::A) == Some(report.a_strength)
            &&& state.current_strength(DglabChannel::B) == Some(report.b_strength)
            &&& state.soft_limit(DglabChannel::A) == Some(report.a_soft_limit)
            &&& state.soft_limit(DglabChannel::B) == Some(report.b_soft_limit)
        },
        state.app_strength_report is None ==> forall|channel: DglabChannel|
            state.current_strength(channel) is None && (#[trigger] state.soft_limit(
                channel,
            )) is None,
{
}

/// A slider ends at the app's limit for its channel, where the limits count and
/// are known, and at 200 elsewhere.
pub proof fn law_sliders_end_at_the_limit(state: AppState)
    ensures
        !state.auto_limit_with_app_soft_limit || state.app_strength_report is None ==> state.slider_max(
            DglabChannel::A,
        ) == 200 && state.slider_max(DglabChannel::B) == 200,
        state.auto_limit_with_app_soft_limit ==> (state.app_strength_report matches Some(report)
            ==> state.slider_max(DglabChannel::A) == report.a_soft_limit && state.slider_max(
            DglabChannel::B,
        ) == report.b_soft_limit),
{
}

/// A new window shows nothing that has not happened: no app, no strengths, no
/// speakers, no errors. Its sliders go to their end, and its standard routes send
/// the two low bands to channel A and the two high ones to channel B.
pub proof fn law_a_new_window_is_at_rest(state: AppState)
    requires
        state.is_fresh(),
    ensures
        !state.running && !state.app_connected && !state.app_bound && !state.audio_capture_running,
        state.app_strength_report is None && state.last_error is None,
        state.output_strengths@ == seq![0u16, 0u16],
        state.slider_max(DglabChannel::A) == 200 && state.slider_max(DglabChannel::B) == 200,
        state.saved_scenes@.len() == 4,
        forall|i: int| 0 <= i < 4 ==> (#[trigger] state.saved_scenes@[i]) is None,
        state.band_routing@[0].channel == DglabChannel::A,
        state.band_routing@[1].channel == DglabChannel::A,
        state.band_routing@[2].channel == DglabChannel::B,
        state.band_routing@[3].channel == DglabChannel::B,
        state.strength_range_a == (StrengthRange { min: 10, max: 160 }),
        state.strength_range_b == (StrengthRange { min: 10, max: 160 }),
        state.scene().tidied() == state.scene(),
{
    assert(state.band_routing@ == state.scene().band_routing);
    assert(state.strength_range_a == state.scene().strength_range_a);
    assert(state.strength_range_b == state.scene().strength_range_b);
    assert forall|i: int| 0 <= i < 4 implies (#[trigger] state.saved_scenes@[i]) is None by {
        assert(scenes::slot_views(state.saved_scenes@)[i] == scenes::slot_view(
            state.saved_scenes@[i],
        ));
        assert(scenes::no_scenes()[i] is None);
    }
    assert(state.scene().tidied() =~= state.scene());
}

/// Taking over the scene of another state brings its scene and nothing else.
pub proof fn law_only_the_scene_is_taken_over(state: AppState, other: AppState)
    ensures
        ({
            let r = state.with_scene_of(other);
            &&& r.scene() == other.scene()
            &&& r.with_scene_of(state) == state
            &&& r.language == state.language && r.websocket_url == state.websocket_url
            &&& r.app_strength_report == state.app_strength_report
            &&& r.output_strengths == state.output_strengths
            &&& r.saved_scenes == state.saved_scenes
            &&& r.running == state.running && r.app_bound == state.app_bound
            &&& r.selected_output_device == state.selected_output_device
            &&& r.analysis_frame_size == state.analysis_frame_size
        }),
{
}

/// A new window is in English and sends by hand to channel A: a set strength of
/// 50, and the sample pulse. It analyses frames of 1024 and keeps to the app's
/// limits.
pub proof fn law_a_new_window_has_its_defaults(state: AppState)
    requires
        state.is_fresh(),
    ensures
        state.language == UiLanguage::En,
        state.debug_strength_channel == DglabChannel::A,
        state.debug_clear_channel == DglabChannel::A,
        state.debug_pulse_channel == DglabChannel::A,
        state.debug_strength_mode == StrengthControlMode::SetValue,
        state.debug_strength_value == 50,
        state.debug_pulse_values@
            == "0A0A0A0A0A0A0A0A 0A0A0A0A0A0A0A0A 0A0A0A0A0A0A0A0A 0A0A0A0A0A0A0A0A"@,
        state.analysis_frame_size == 1024,
        state.auto_limit_with_app_soft_limit,
        state.smooth_strength_enabled,
        state.band_drive_mode == BandDriveMode::Energy,
        state.auto_pulse_mode == AutoPulseMode::ByStrength,
        state.waveform_pattern_mode == WaveformPatternMode::AutoMorph,
        state.waveform_pattern == WaveformPattern::Smooth,
        state.selected_output_device is None && state.audio_input_device is None,
        state.app_id is None && state.last_protocol_action is None,
        state.last_app_message is None && state.last_server_info is None,
        state.available_output_devices@.len() == 0,
        forall|i: int| 0 <= i < 4 ==> (#[trigger] state.band_values@[i]).bits == 0,
{
    let scene = state.scene();
    assert(state.band_drive_mode == scene.band_drive_mode);
    assert(state.auto_pulse_mode == scene.auto_pulse_mode);
    assert(state.waveform_pattern_mode == scene.waveform_pattern_mode);
    assert(state.waveform_pattern == scene.waveform_pattern);
    assert(state.smooth_strength_enabled == scene.smooth_strength_enabled);
}

} // verus!
