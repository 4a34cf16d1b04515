//! The settings that outlast the program.

use vstd::prelude::*;

use crate::app::i18n::UiLanguage;
use crate::app::scenes;
use crate::app::scenes::{
    copy_scene_slots, empty_scene_slots, normalize_saved_scenes, SavedScene, SavedView, SceneConfig,
    SceneView, USER_SCENE_SLOT_COUNT,
};
use crate::app::state::AppState;
use crate::audio::capture;
use crate::audio::capture::{normalize_analysis_frame_size, DEFAULT_ANALYSIS_FRAME_SIZE};
use crate::level::{Level, FOUR, ONE, ZERO};
use crate::pipeline::engine::{USUAL_CONTRAST, USUAL_SMOOTHNESS};
use crate::text;
use crate::text::{copy_optional, trim_text};
use crate::types;
use crate::types::{
    default_band_routing, AutoPulseMode, BandDriveMode, BandRouting, StrengthRange, WaveformPattern,
    WaveformPatternMode, BAND_COUNT,
};

verus! {

/// The version of the settings that are written.
pub const SETTINGS_SCHEMA_VERSION: u8 = 7;

#[derive(Debug, PartialEq)]
pub struct PersistedSettings {
    pub version: u8,
    pub language: UiLanguage,
    pub band_routing: [BandRouting; BAND_COUNT],
    pub strength_range_a: StrengthRange,
    pub strength_range_b: StrengthRange,
    pub auto_pulse_mode: AutoPulseMode,
    pub band_drive_mode: BandDriveMode,
    pub waveform_pattern_mode: WaveformPatternMode,
    pub waveform_pattern: WaveformPattern,
    pub waveform_contrast: Level,
    pub smooth_strength_enabled: bool,
    pub smooth_strength_factor: Level,
    pub selected_output_device: Option<String>,
    pub analysis_frame_size: usize,
    pub saved_scenes: Vec<Option<SavedScene>>,
}

#[verifier::ext_equal]
pub struct SettingsView {
    pub version: u8,
    pub language: UiLanguage,
    pub scene: SceneView,
    pub speaker: Option<Seq<char>>,
    pub frame_size: usize,
    pub slots: Seq<Option<SavedView>>,
}

/// A speaker's name, trimmed; none if blank.
pub open spec fn tidy_speaker(speaker: Option<Seq<char>>) -> Option<Seq<char>> {
    match speaker {
        Some(name) => if text::trimmed(name).len() > 0 {
            Some(text::trimmed(name))
        } else {
            None
        },
        None => None,
    }
}

impl SettingsView {
    /// The settings brought up to date: what an older version did not have, or
    /// had in another sense, is set anew. `inverted_factor` is the smoothness in
    /// the sense of the first version.
    pub open spec fn upgraded(self, inverted_factor: Level) -> SettingsView {
        SettingsView {
            version: SETTINGS_SCHEMA_VERSION,
            scene: SceneView {
                smooth_strength_factor: if self.version < 2 {
                    inverted_factor
                } else {
                    self.scene.smooth_strength_factor
                },
                auto_pulse_mode: if self.version < 3 {
                    AutoPulseMode::ByStrength
                } else {
                    self.scene.auto_pulse_mode
                },
                waveform_contrast: if self.version < 4 {
                    Level { bits: USUAL_CONTRAST }
                } else {
                    self.scene.waveform_contrast
                },
                band_drive_mode: if self.version < 6 {
                    BandDriveMode::Energy
                } else {
                    self.scene.band_drive_mode
                },
                waveform_pattern_mode: if self.version < 7 {
                    WaveformPatternMode::AutoMorph
                } else {
                    self.scene.waveform_pattern_mode
                },
                waveform_pattern: if self.version < 7 {
                    WaveformPattern::Smooth
                } else {
                    self.scene.waveform_pattern
                },
                ..self.scene
            },
            ..self
        }
    }

    /// The settings brought up to date and into their ranges.
    pub open spec fn tidied(self, inverted_factor: Level) -> SettingsView {
        let current = self.upgraded(inverted_factor);
        SettingsView {
            scene: current.scene.tidied(),
            speaker: tidy_speaker(current.speaker),
            frame_size: capture::tidy_frame_size(current.frame_size),
            slots: scenes::tidied_slots(current.slots),
            ..current
        }
    }
}

impl View for PersistedSettings {
    type V = SettingsView;

    open spec fn view(&self) -> SettingsView {
        SettingsView {
            version: self.version,
            language: self.language,
            scene: SceneView {
                band_routing: self.band_routing@,
                strength_range_a: self.strength_range_a,
                strength_range_b: self.strength_range_b,
                auto_pulse_mode: self.auto_pulse_mode,
                band_drive_mode: self.band_drive_mode,
                waveform_pattern_mode: self.waveform_pattern_mode,
                waveform_pattern: self.waveform_pattern,
                waveform_contrast: self.waveform_contrast,
                smooth_strength_enabled: self.smooth_strength_enabled,
                smooth_strength_factor: self.smooth_strength_factor,
            },
            speaker: text::optional_text(self.selected_output_device),
            frame_size: self.analysis_frame_size,
            slots: scenes::slot_views(self.saved_scenes@),
        }
    }
}

impl Clone for PersistedSettings {
    fn clone(&self) -> (r: PersistedSettings)
        ensures
            r@ == self@,
    {
        PersistedSettings {
            version: self.version,
            language: self.language,
            band_routing: self.band_routing,
            strength_range_a: self.strength_range_a,
            strength_range_b: self.strength_range_b,
            auto_pulse_mode: self.auto_pulse_mode,
            band_drive_mode: self.band_drive_mode,
            waveform_pattern_mode: self.waveform_pattern_mode,
            waveform_pattern: self.waveform_pattern,
            waveform_contrast: self.waveform_contrast,
            smooth_strength_enabled: self.smooth_strength_enabled,
            smooth_strength_factor: self.smooth_strength_factor,
            selected_output_device: copy_optional(&self.selected_output_device),
            analysis_frame_size: self.analysis_frame_size,
            saved_scenes: copy_scene_slots(&self.saved_scenes),
        }
    }
}

impl Default for PersistedSettings {
    /// What a file without any entry stands for.
    fn default() -> (r: PersistedSettings)
        ensures
            r@ == (SettingsView {
                version: 1,
                language: UiLanguage::En,
                scene: SceneView::usual(),
                speaker: None,
                frame_size: DEFAULT_ANALYSIS_FRAME_SIZE,
                slots: scenes::no_scenes(),
            }),
    {
        let r = PersistedSettings {
            version: 1,
            language: UiLanguage::En,
            band_routing: default_band_routing(),
            strength_range_a: StrengthRange::new(10, 160),
            strength_range_b: StrengthRange::new(10, 160),
            auto_pulse_mode: AutoPulseMode::ByStrength,
            band_drive_mode: BandDriveMode::Energy,
            waveform_pattern_mode: WaveformPatternMode::AutoMorph,
            waveform_pattern: WaveformPattern::Smooth,
            waveform_contrast: Level::from_bits(USUAL_CONTRAST),
            smooth_strength_enabled: true,
            smooth_strength_factor: Level::from_bits(USUAL_SMOOTHNESS),
            selected_output_device: None,
            analysis_frame_size: DEFAULT_ANALYSIS_FRAME_SIZE,
            saved_scenes: empty_scene_slots(),
        };
        assert(r@.scene =~= SceneView::usual());
        r
    }
}

/// The part of a state that is kept.
pub open spec fn kept(state: AppState) -> SettingsView {
    SettingsView {
        version: SETTINGS_SCHEMA_VERSION,
        language: state.language,
        scene: state.scene(),
        speaker: text::optional_text(state.selected_output_device),
        frame_size: state.analysis_frame_size,
        slots: scenes::slot_views(state.saved_scenes@),
    }
}

impl PersistedSettings {
    /// The settings to keep of a state.
    pub fn from_state(state: &AppState) -> (r: PersistedSettings)
        ensures
            r@ == kept(*state).tidied(state.smooth_strength_factor),
    {
        let settings = PersistedSettings {
            version: SETTINGS_SCHEMA_VERSION,
            language: state.language,
            band_routing: state.band_routing,
            strength_range_a: state.strength_range_a,
            strength_range_b: state.strength_range_b,
            auto_pulse_mode: state.auto_pulse_mode,
            band_drive_mode: state.band_drive_mode,
            waveform_pattern_mode: state.waveform_pattern_mode,
            waveform_pattern: state.waveform_pattern,
            waveform_contrast: state.waveform_contrast,
            smooth_strength_enabled: state.smooth_strength_enabled,
            smooth_strength_factor: state.smooth_strength_factor,
            selected_output_device: copy_optional(&state.selected_output_device),
            analysis_frame_size: state.analysis_frame_size,
            saved_scenes: copy_scene_slots(&state.saved_scenes),
        };
        assert(settings@ =~= kept(*state));
        settings.sanitized(state.smooth_strength_factor)
    }

    /// Puts the settings into a state. `inverted_factor` is one less the
    /// smoothness in its range; it counts for settings of the first version.
    pub fn apply_to_state(&self, state: &mut AppState, inverted_factor: Level)
        ensures
            ({
                let current = self@.tidied(inverted_factor);
                &&& final(state).language == current.language
                &&& final(state).scene() == current.scene
                &&& text::optional_text(final(state).selected_output_device) == current.speaker
                &&& final(state).analysis_frame_size == current.frame_size
                &&& final(state).saved_scenes@.len() == USER_SCENE_SLOT_COUNT
                &&& scenes::slot_views(final(state).saved_scenes@) == current.slots
                &&& *final(state) == (AppState {
                    language: final(state).language,
                    selected_output_device: final(state).selected_output_device,
                    analysis_frame_size: final(state).analysis_frame_size,
                    saved_scenes: final(state).saved_scenes,
                    ..old(state).with_scene_of(*final(state))
                })
            }),
    {
        let current = self.clone().sanitized(inverted_factor);
        state.language = current.language;
        state.band_routing = current.band_routing;
        state.strength_range_a = current.strength_range_a;
        state.strength_range_b = current.strength_range_b;
        state.auto_pulse_mode = current.auto_pulse_mode;
        state.band_drive_mode = current.band_drive_mode;
        state.waveform_pattern_mode = current.waveform_pattern_mode;
        state.waveform_pattern = current.waveform_pattern;
        state.waveform_contrast = current.waveform_contrast;
        state.smooth_strength_enabled = current.smooth_strength_enabled;
        state.smooth_strength_factor = current.smooth_strength_factor;
        state.selected_output_device = copy_optional(&current.selected_output_device);
        state.analysis_frame_size = current.analysis_frame_size;
        assert(current@.slots.len() == current.saved_scenes@.len());
        state.saved_scenes = current.saved_scenes;
        assert(state.scene() =~= current@.scene);
    }

    /// Brings the settings up to date and into their ranges.
    pub fn sanitized(self, inverted_factor: Level) -> (r: PersistedSettings)
        ensures
            r@ == self@.tidied(inverted_factor),
    {
        let scene = SceneConfig {
            band_routing: self.band_routing,
            strength_range_a: self.strength_range_a,
            strength_range_b: self.strength_range_b,
            auto_pulse_mode: if self.version < 3 {
                AutoPulseMode::ByStrength
            } else {
                self.auto_pulse_mode
            },
            band_drive_mode: if self.version < 6 {
                BandDriveMode::Energy
            } else {
                self.band_drive_mode
            },
            waveform_pattern_mode: if self.version < 7 {
                WaveformPatternMode::AutoMorph
            } else {
                self.waveform_pattern_mode
            },
            waveform_pattern: if self.version < 7 {
                WaveformPattern::Smooth
            } else {
                self.waveform_pattern
            },
            waveform_contrast: if self.version < 4 {
                Level::from_bits(USUAL_CONTRAST)
            } else {
                self.waveform_contrast
            },
            smooth_strength_enabled: self.smooth_strength_enabled,
            smooth_strength_factor: if self.version < 2 {
                inverted_factor
            } else {
                self.smooth_strength_factor
            },
        };
        assert(scene@ =~= self@.upgraded(inverted_factor).scene);
        let scene = scene.sanitized();
        let speaker = match &self.selected_output_device {
            Some(name) => {
                let trimmed = trim_text(name.as_str());
                if trimmed.unicode_len() == 0 {
                    None
                } else {
                    Some(trimmed.to_owned())
                }
            },
            None => None,
        };
        let r = PersistedSettings {
            version: SETTINGS_SCHEMA_VERSION,
            language: self.language,
            band_routing: scene.band_routing,
            strength_range_a: scene.strength_range_a,
            strength_range_b: scene.strength_range_b,
            auto_pulse_mode: scene.auto_pulse_mode,
            band_drive_mode: scene.band_drive_mode,
            waveform_pattern_mode: scene.waveform_pattern_mode,
            waveform_pattern: scene.waveform_pattern,
            waveform_contrast: scene.waveform_contrast,
            smooth_strength_enabled: scene.smooth_strength_enabled,
            smooth_strength_factor: scene.smooth_strength_factor,
            selected_output_device: speaker,
            analysis_frame_size: normalize_analysis_frame_size(self.analysis_frame_size),
            saved_scenes: normalize_saved_scenes(self.saved_scenes),
        };
        assert(r@.scene =~= scene@);
        r
    }
}

/// Settings that were brought up to date stay as they are.
pub proof fn law_tidied_settings_are_stable(settings: SettingsView, inverted: Level, again: Level)
    ensures
        settings.tidied(inverted).version == SETTINGS_SCHEMA_VERSION,
        settings.tidied(inverted).tidied(again) == settings.tidied(inverted),
{
    let once = settings.tidied(inverted);
    scenes::law_tidied_scene_is_stable(settings.upgraded(inverted).scene);
    scenes::law_tidied_slots_are_stable(settings.slots);
    match settings.speaker {
        Some(name) => {
            text::lemma_trim_facts(name, text::CharClass::Space);
            let t = text::trimmed(name);
            assert(t.len() > 0 ==> text::trimmed(t) == t);
        },
        None => {},
    }
    assert(once.tidied(again) =~= once);
}

/// Settings of any version become those of the present one: what their version
/// did not have, or had in another sense, is set anew, the rest is kept, and all
/// of it is brought into its range.
pub proof fn law_settings_are_brought_up_to_date(settings: SettingsView, inverted: Level)
    ensures
        ({
            let r = settings.tidied(inverted);
            let old_scene = settings.scene;
            &&& r.version == SETTINGS_SCHEMA_VERSION
            &&& r.language == settings.language
            &&& r.speaker == tidy_speaker(settings.speaker)
            &&& r.frame_size == capture::tidy_frame_size(settings.frame_size)
            &&& r.slots == scenes::tidied_slots(settings.slots)
            &&& r.scene.smooth_strength_factor == if settings.version < 2 {
                inverted.unit()
            } else {
                old_scene.smooth_strength_factor.unit()
            }
            &&& r.scene.auto_pulse_mode == if settings.version < 3 {
                AutoPulseMode::ByStrength
            } else {
                old_scene.auto_pulse_mode
            }
            &&& r.scene.waveform_contrast == if settings.version < 4 {
                Level { bits: USUAL_CONTRAST }
            } else {
                scenes::tidy_contrast(old_scene.waveform_contrast)
            }
            &&& r.scene.band_drive_mode == if settings.version < 6 {
                BandDriveMode::Energy
            } else {
                old_scene.band_drive_mode
            }
            &&& r.scene.waveform_pattern_mode == if settings.version < 7 {
                WaveformPatternMode::AutoMorph
            } else {
                old_scene.waveform_pattern_mode
            }
            &&& r.scene.waveform_pattern == if settings.version < 7 {
                WaveformPattern::Smooth
            } else {
                old_scene.waveform_pattern
            }
            &&& r.scene.smooth_strength_enabled == old_scene.smooth_strength_enabled
            &&& r.scene.strength_range_a == old_scene.strength_range_a.ordered()
            &&& r.scene.strength_range_b == old_scene.strength_range_b.ordered()
            &&& r.scene.band_routing == types::limited_routing(old_scene.band_routing)
        }),
{
}

/// The settings that come of it are in their ranges, values that stand for no
/// number aside, and a speaker's name is neither blank nor padded.
pub proof fn law_tidied_settings_are_in_range(settings: SettingsView, inverted: Level)
    ensures
        ({
            let given = settings.upgraded(inverted).scene;
            let r = settings.tidied(inverted);
            &&& !given.waveform_contrast.is_nan() ==> (Level { bits: ONE }).le(
                r.scene.waveform_contrast,
            ) && r.scene.waveform_contrast.le(Level { bits: FOUR })
            &&& !given.smooth_strength_factor.is_nan() ==> (Level { bits: ZERO }).le(
                r.scene.smooth_strength_factor,
            ) && r.scene.smooth_strength_factor.le(Level { bits: ONE })
            &&& r.scene.band_routing.len() == given.band_routing.len()
            &&& forall|i: int|
                0 <= i < r.scene.band_routing.len() ==> {
                    let route = #[trigger] r.scene.band_routing[i];
                    &&& !given.band_routing[i].threshold.is_nan() ==> (Level { bits: ZERO }).le(
                        route.threshold,
                    ) && route.threshold.le(Level { bits: ONE })
                    &&& route.attack_ms <= types::MAX_ENVELOPE_MS
                    &&& route.hold_ms <= types::MAX_ENVELOPE_MS
                    &&& route.release_ms <= types::MAX_ENVELOPE_MS
                }
            &&& r.scene.strength_range_a.min <= r.scene.strength_range_a.max <= types::MAX_STRENGTH
            &&& r.scene.strength_range_b.min <= r.scene.strength_range_b.max <= types::MAX_STRENGTH
            &&& capture::is_analysis_frame_size(r.frame_size)
            &&& r.slots.len() == USER_SCENE_SLOT_COUNT
            &&& r.speaker matches Some(name) ==> name.len() > 0 && text::trimmed(name) == name
        }),
{
    scenes::law_tidied_scene_is_in_range(settings.upgraded(inverted).scene);
    match settings.speaker {
        Some(name) => {
            text::lemma_trim_facts(name, text::CharClass::Space);
            let t = text::trimmed(name);
            assert(t.len() > 0 ==> text::trimmed(t) == t);
        },
        None => {},
    }
}

/// What is kept of a state comes back: a state that the settings were put into
/// gives the same settings again.
pub proof fn law_kept_settings_come_back(
    before: AppState,
    after: AppState,
    settings: SettingsView,
    inverted: Level,
)
    requires
        settings == kept(before).tidied(before.smooth_strength_factor),
        after.language == settings.tidied(inverted).language,
        after.scene() == settings.tidied(inverted).scene,
        text::optional_text(after.selected_output_device) == settings.tidied(inverted).speaker,
        after.analysis_frame_size == settings.tidied(inverted).frame_size,
        scenes::slot_views(after.saved_scenes@) == settings.tidied(inverted).slots,
    ensures
        kept(after).tidied(after.smooth_strength_factor) == settings,
{
    let factor = before.smooth_strength_factor;
    law_tidied_settings_are_stable(kept(before), factor, inverted);
    law_tidied_settings_are_stable(kept(before), factor, after.smooth_strength_factor);
    assert(kept(after) =~= settings);
}

/// A state whose values are in their ranges comes back whole, as far as it is
/// kept: the state that its settings were put into agrees with it on the
/// language, the scene, the speaker, the frame size and the kept scenes.
pub proof fn law_kept_state_comes_back(
    before: AppState,
    after: AppState,
    settings: SettingsView,
    inverted: Level,
)
    requires
        before.scene().tidied() == before.scene(),
        tidy_speaker(text::optional_text(before.selected_output_device)) == text::optional_text(
            before.selected_output_device,
        ),
        capture::is_analysis_frame_size(before.analysis_frame_size),
        scenes::tidied_slots(scenes::slot_views(before.saved_scenes@)) == scenes::slot_views(
            before.saved_scenes@,
        ),
        settings == kept(before).tidied(before.smooth_strength_factor),
        after.language == settings.tidied(inverted).language,
        after.scene() == settings.tidied(inverted).scene,
        text::optional_text(after.selected_output_device) == settings.tidied(inverted).speaker,
        after.analysis_frame_size == settings.tidied(inverted).frame_size,
        scenes::slot_views(after.saved_scenes@) == settings.tidied(inverted).slots,
    ensures
        after.language == before.language,
        after.scene() == before.scene(),
        text::optional_text(after.selected_output_device) == text::optional_text(
            before.selected_output_device,
        ),
        after.analysis_frame_size == before.analysis_frame_size,
        scenes::slot_views(after.saved_scenes@) == scenes::slot_views(before.saved_scenes@),
{
    law_current_settings_are_kept(kept(before), before.smooth_strength_factor);
    law_current_settings_are_kept(kept(before), inverted);
}

/// Settings of the present version keep everything that is in its range.
pub proof fn law_current_settings_are_kept(settings: SettingsView, inverted: Level)
    requires
        settings.version == SETTINGS_SCHEMA_VERSION,
        settings.scene.tidied() == settings.scene,
        tidy_speaker(settings.speaker) == settings.speaker,
        capture::is_analysis_frame_size(settings.frame_size),
        scenes::tidied_slots(settings.slots) == settings.slots,
    ensures
        settings.tidied(inverted) == settings,
{
    assert(settings.upgraded(inverted).scene =~= settings.scene);
}

/// A speaker's name is kept without the white space around it; one of white space
/// alone is no name.
pub proof fn law_speakers_are_kept_by_name(name: Seq<char>)
    ensures
        (forall|i: int| 0 <= i < name.len() ==> text::is_space(#[trigger] name[i]))
            ==> tidy_speaker(Some(name)) is None,
        name.len() > 0 && !text::is_space(name[0]) && !text::is_space(name.last())
            ==> tidy_speaker(Some(name)) == Some(name),
        tidy_speaker(None) is None,
{
    text::law_blank_texts_have_white_space_only(name);
    if name.len() > 0 && !text::is_space(name[0]) && !text::is_space(name.last()) {
        assert(text::trimmed(name) == name);
    }
}

/// What is kept of a state is the state's own: its language, its scene, its
/// speaker, its frame size and its kept scenes.
pub proof fn law_the_state_is_kept(state: AppState)
    ensures
        kept(state).version == 7,
        kept(state).language == state.language,
        kept(state).scene.band_routing == state.band_routing@,
        kept(state).scene.strength_range_a == state.strength_range_a,
        kept(state).scene.strength_range_b == state.strength_range_b,
        kept(state).scene.auto_pulse_mode == state.auto_pulse_mode,
        kept(state).scene.band_drive_mode == state.band_drive_mode,
        kept(state).scene.waveform_pattern_mode == state.waveform_pattern_mode,
        kept(state).scene.waveform_pattern == state.waveform_pattern,
        kept(state).scene.waveform_contrast == state.waveform_contrast,
        kept(state).scene.smooth_strength_enabled == state.smooth_strength_enabled,
        kept(state).scene.smooth_strength_factor == state.smooth_strength_factor,
        state.selected_output_device matches Some(name) ==> kept(state).speaker == Some(name@),
        state.selected_output_device is None ==> kept(state).speaker is None,
        kept(state).frame_size == state.analysis_frame_size,
        kept(state).slots.len() == state.saved_scenes@.len(),
        forall|i: int|
            0 <= i < state.saved_scenes@.len() ==> (#[trigger] kept(state).slots[i] is Some
                <==> state.saved_scenes@[i] is Some),
{
}

} // verus!
