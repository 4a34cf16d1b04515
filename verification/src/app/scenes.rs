//! Scenes: style settings that can be kept and brought back.

use vstd::prelude::*;

use crate::level::{Level, FOUR, ONE, ZERO};
use crate::pipeline::engine::{USUAL_CONTRAST, USUAL_SMOOTHNESS};
use crate::text;
use crate::text::{push_decimal, trim_text};
use crate::types;
use crate::types::{
    default_band_routing, limit_band_routing, AutoPulseMode, BandDriveMode, BandRouting,
    DglabChannel, StrengthRange, WaveformPattern, WaveformPatternMode, BAND_COUNT,
    MAX_ENVELOPE_MS,
};

verus! {

/// How many scenes can be kept.
pub const USER_SCENE_SLOT_COUNT: usize = 4;

#[derive(Debug, Clone, Copy, PartialEq)]
pub struct SceneConfig {
    pub band_routing: [BandRouting; BAND_COUNT],
    pub strength_range_a: StrengthRange,
    pub strength_range_b: StrengthRange,
    pub auto_pulse_mode: AutoPulseMode,
    pub band_drive_mode: BandDriveMode,
    pub waveform_pattern_mode: WaveformPatternMode,
    pub waveform_pattern: WaveformPattern,
    pub waveform_contrast: Level,
    pub smooth_strength_enabled: bool,
    pub smooth_strength_factor: Level,
}

#[verifier::ext_equal]
pub struct SceneView {
    pub band_routing: Seq<BandRouting>,
    pub strength_range_a: StrengthRange,
    pub strength_range_b: StrengthRange,
    pub auto_pulse_mode: AutoPulseMode,
    pub band_drive_mode: BandDriveMode,
    pub waveform_pattern_mode: WaveformPatternMode,
    pub waveform_pattern: WaveformPattern,
    pub waveform_contrast: Level,
    pub smooth_strength_enabled: bool,
    pub smooth_strength_factor: Level,
}

/// A contrast in its range from one to four.
pub open spec fn tidy_contrast(contrast: Level) -> Level {
    contrast.clamped(Level { bits: ONE }, Level { bits: FOUR })
}

impl SceneView {
    /// The scene with every value in its range.
    pub open spec fn tidied(self) -> SceneView {
        SceneView {
            band_routing: types::limited_routing(self.band_routing),
            strength_range_a: self.strength_range_a.ordered(),
            strength_range_b: self.strength_range_b.ordered(),
            waveform_contrast: tidy_contrast(self.waveform_contrast),
            smooth_strength_factor: self.smooth_strength_factor.unit(),
            ..self
        }
    }

    /// The scene of a new window.
    pub open spec fn usual() -> SceneView {
        SceneView {
            band_routing: types::standard_routing(),
            strength_range_a: StrengthRange { min: 10, max: 160 },
            strength_range_b: StrengthRange { min: 10, max: 160 },
            auto_pulse_mode: AutoPulseMode::ByStrength,
            band_drive_mode: BandDriveMode::Energy,
            waveform_pattern_mode: WaveformPatternMode::AutoMorph,
            waveform_pattern: WaveformPattern::Smooth,
            waveform_contrast: Level { bits: USUAL_CONTRAST },
            smooth_strength_enabled: true,
            smooth_strength_factor: Level { bits: USUAL_SMOOTHNESS },
        }
    }
}

impl View for SceneConfig {
    type V = SceneView;

    open spec fn view(&self) -> SceneView {
        SceneView {
            band_routing: self.band_routing@,
            strength_range_a: self.strength_range_a,
            strength_range_b: self.strength_range_b,
            auto_pulse_mode: self.auto_pulse_mode,
            band_drive_mode: self.band_drive_mode,
            waveform_pattern_mode: self.waveform_pattern_mode,
            waveform_pattern: self.waveform_pattern,
            waveform_contrast: self.waveform_contrast,
            smooth_strength_enabled: self.smooth_strength_enabled,
            smooth_strength_factor: self.smooth_strength_factor,
        }
    }
}

impl Default for SceneConfig {
    fn default() -> (r: SceneConfig)
        ensures
            r@ == SceneView::usual(),
    {
        SceneConfig {
            band_routing: default_band_routing(),
            strength_range_a: StrengthRange::new(10, 160),
            strength_range_b: StrengthRange::new(10, 160),
            auto_pulse_mode: AutoPulseMode::ByStrength,
            band_drive_mode: BandDriveMode::Energy,
            waveform_pattern_mode: WaveformPatternMode::AutoMorph,
            waveform_pattern: WaveformPattern::Smooth,
            waveform_contrast: Level::from_bits(USUAL_CONTRAST),
            smooth_strength_enabled: true,
            smooth_strength_factor: Level::from_bits(USUAL_SMOOTHNESS),
        }
    }
}

impl SceneConfig {
    /// Brings every value into its range.
    pub fn sanitized(self) -> (r: SceneConfig)
        ensures
            r@ == self@.tidied(),
    {
        SceneConfig {
            band_routing: limit_band_routing(self.band_routing),
            strength_range_a: self.strength_range_a.normalized(),
            strength_range_b: self.strength_range_b.normalized(),
            auto_pulse_mode: self.auto_pulse_mode,
            band_drive_mode: self.band_drive_mode,
            waveform_pattern_mode: self.waveform_pattern_mode,
            waveform_pattern: self.waveform_pattern,
            waveform_contrast: self.waveform_contrast.clamp_to(
                Level::from_bits(ONE),
                Level::from_bits(FOUR),
            ),
            smooth_strength_enabled: self.smooth_strength_enabled,
            smooth_strength_factor: self.smooth_strength_factor.clamp_unit(),
        }
    }
}

/// A scene that was kept.
#[derive(Debug, PartialEq)]
pub struct SavedScene {
    pub name: String,
    pub config: SceneConfig,
}

#[verifier::ext_equal]
pub struct SavedView {
    pub name: Seq<char>,
    pub config: SceneView,
}

impl View for SavedScene {
    type V = SavedView;

    open spec fn view(&self) -> SavedView {
        SavedView { name: self.name@, config: self.config@ }
    }
}

impl Clone for SavedScene {
    fn clone(&self) -> (r: SavedScene)
        ensures
            r@ == self@,
    {
        SavedScene { name: self.name.clone(), config: self.config }
    }
}

/// A built-in scene.
#[derive(Debug, Clone, Copy, PartialEq)]
pub struct FactoryScenePreset {
    pub id: FactorySceneId,
    pub name_en: &'static str,
    pub name_zh: &'static str,
    pub summary_en: &'static str,
    pub summary_zh: &'static str,
    pub config: SceneConfig,
}

impl FactoryScenePreset {
    pub open spec fn is_preset(self, id: FactorySceneId) -> bool {
        &&& self.id == id
        &&& (self.name_en@, self.name_zh@) == factory_names(id)
        &&& (self.summary_en@, self.summary_zh@) == factory_summaries(id)
        &&& self.config@ == factory_scene(id)
    }
}

/// The built-in scenes.
#[derive(Debug, Clone, Copy, PartialEq, Eq, Structural, Default)]
pub enum FactorySceneId {
    #[default]
    BalancedMotion,
    EdmDrop,
    TechnoRail,
    HouseLift,
    HipHopBounce,
    PopVocalBloom,
    AirSparkle,
    RockDriver,
    DnBRush,
    AmbientTide,
    LoFiDrift,
}

/// A route that is enabled.
pub open spec fn active_route(
    threshold_bits: u32,
    channel: DglabChannel,
    attack_ms: u16,
    hold_ms: u16,
    release_ms: u16,
) -> BandRouting {
    BandRouting {
        enabled: true,
        threshold: Level { bits: threshold_bits },
        channel,
        attack_ms,
        hold_ms,
        release_ms,
    }
}

fn route(
    threshold_bits: u32,
    channel: DglabChannel,
    attack_ms: u16,
    hold_ms: u16,
    release_ms: u16,
) -> (r: BandRouting)
    ensures
        r == active_route(threshold_bits, channel, attack_ms, hold_ms, release_ms),
{
    BandRouting {
        enabled: true,
        threshold: Level::from_bits(threshold_bits),
        channel,
        attack_ms,
        hold_ms,
        release_ms,
    }
}

/// The name of a built-in scene, in English and in Chinese.
pub open spec fn factory_names(id: FactorySceneId) -> (Seq<char>, Seq<char>) {
    match id {
        FactorySceneId::BalancedMotion => ("Balanced Motion"@, "均衡律动"@),
        FactorySceneId::EdmDrop => ("EDM Drop"@, "电音 Drop"@),
        FactorySceneId::TechnoRail => ("Techno Rail"@, "Techno 脉冲"@),
        FactorySceneId::HouseLift => ("House Lift"@, "House 抬升"@),
        FactorySceneId::HipHopBounce => ("Hip-Hop Bounce"@, "嘻哈弹跳"@),
        FactorySceneId::PopVocalBloom => ("Pop Vocal Bloom"@, "流行人声绽放"@),
        FactorySceneId::AirSparkle => ("Air Sparkle"@, "空气闪烁"@),
        FactorySceneId::RockDriver => ("Rock Driver"@, "摇滚推进"@),
        FactorySceneId::DnBRush => ("Drum & Bass Rush"@, "鼓打贝斯疾冲"@),
        FactorySceneId::AmbientTide => ("Ambient Tide"@, "氛围潮汐"@),
        FactorySceneId::LoFiDrift => ("Lo-fi Drift"@, "低保真漂移"@),
    }
}

/// What a built-in scene is for, in English and in Chinese.
pub open spec fn factory_summaries(id: FactorySceneId) -> (Seq<char>, Seq<char>) {
    match id {
        FactorySceneId::BalancedMotion => (
            "General music preset with balanced movement and auto-morph waveform."@,
            "适合大多数音乐的均衡预设，带自动形变波形。"@,
        ),
        FactorySceneId::EdmDrop => (
            "Big-room style: hard kick impact, bright tops, fast transient reaction."@,
            "偏大房电音：底鼓冲击强、顶部亮、瞬态反应快。"@,
        ),
        FactorySceneId::TechnoRail => (
            "Steady low-end engine with a linear rolling pulse for hypnotic techno grooves."@,
            "持续低频引擎感，滚动脉冲更适合催眠式 techno 律动。"@,
        ),
        FactorySceneId::HouseLift => (
            "Four-on-the-floor kick with clap and hat lift, tuned for house and disco-pop."@,
            "四拍底鼓配合 clap 和帽子上扬，更适合 house 和 disco-pop。"@,
        ),
        FactorySceneId::HipHopBounce => (
            "Heavy sub and bass hold longer, with less top-end chatter and a slower bounce."@,
            "超低频和贝斯停留更久，高频更克制，整体更慢更弹。"@,
        ),
        FactorySceneId::PopVocalBloom => (
            "Pushes vocal and lead presence forward while keeping bass supportive instead of dominant."@,
            "把人声和主旋律推到前面，让低频更多扮演陪衬而不是主导。"@,
        ),
        FactorySceneId::AirSparkle => (
            "Highlights hats, shimmer, and top-end details with a brighter pulse feel."@,
            "突出踩镲、亮度和高频细节，波形更轻快明亮。"@,
        ),
        FactorySceneId::RockDriver => (
            "Snare crack, guitar midrange, and kick all stay active without turning the mix into pure sub."@,
            "保留军鼓脆点、吉他中频和底鼓推进，不会只剩一团低频。"@,
        ),
        FactorySceneId::DnBRush => (
            "Very fast breakbeat scene with aggressive highs and transient-focused top-end energy."@,
            "更快的 breakbeat 场景，高频更凶，瞬态导向更明显。"@,
        ),
        FactorySceneId::AmbientTide => (
            "Slow swells and broad movement for pads, drones, ambient pop, and cinematic wash."@,
            "适合 pad、drone、氛围流行和电影化铺底，强调缓慢起伏。"@,
        ),
        FactorySceneId::LoFiDrift => (
            "Soft, lazy movement that suits lo-fi beats, mellow keys, and dusty background groove."@,
            "更柔、更懒、更慢，适合 lo-fi beat、温和键盘和尘感背景律动。"@,
        ),
    }
}

/// The routes of a built-in scene.
pub open spec fn factory_routes(id: FactorySceneId) -> Seq<BandRouting> {
    match id {
        FactorySceneId::BalancedMotion => types::standard_routing(),
        FactorySceneId::EdmDrop => seq![
            active_route(0x3e8f_5c29, DglabChannel::A, 15, 90, 150),
            active_route(0x3ecc_cccd, DglabChannel::A, 20, 100, 170),
            active_route(0x3ee1_47ae, DglabChannel::B, 24, 110, 180),
            active_route(0x3f19_999a, DglabChannel::B, 12, 70, 120),
        ],
        FactorySceneId::TechnoRail => seq![
            active_route(0x3eae_147b, DglabChannel::A, 35, 130, 220),
            active_route(0x3ec2_8f5c, DglabChannel::A, 40, 140, 240),
            active_route(0x3eeb_851f, DglabChannel::B, 32, 110, 180),
            active_route(0x3f14_7ae1, DglabChannel::B, 22, 80, 130),
        ],
        FactorySceneId::HouseLift => seq![
            active_route(0x3ea3_d70a, DglabChannel::A, 18, 100, 160),
            active_route(0x3ed7_0a3d, DglabChannel::A, 28, 110, 170),
            active_route(0x3eae_147b, DglabChannel::B, 24, 130, 200),
            active_route(0x3eeb_851f, DglabChannel::B, 14, 85, 135),
        ],
        FactorySceneId::HipHopBounce => seq![
            active_route(0x3e99_999a, DglabChannel::A, 60, 180, 320),
            active_route(0x3ecc_cccd, DglabChannel::A, 70, 190, 330),
            active_route(0x3ed7_0a3d, DglabChannel::B, 55, 150, 260),
            active_route(0x3f38_51ec, DglabChannel::B, 30, 90, 140),
        ],
        FactorySceneId::PopVocalBloom => seq![
            active_route(0x3f14_7ae1, DglabChannel::A, 50, 120, 230),
            active_route(0x3f05_1eb8, DglabChannel::A, 55, 140, 240),
            active_route(0x3e75_c28f, DglabChannel::B, 45, 180, 300),
            active_route(0x3f14_7ae1, DglabChannel::B, 35, 100, 170),
        ],
        FactorySceneId::AirSparkle => seq![
            active_route(0x3f19_999a, DglabChannel::A, 40, 100, 180),
            active_route(0x3f0a_3d71, DglabChannel::A, 35, 100, 180),
            active_route(0x3ecc_cccd, DglabChannel::B, 30, 110, 200),
            active_route(0x3ee1_47ae, DglabChannel::B, 18, 90, 150),
        ],
        FactorySceneId::RockDriver => seq![
            active_route(0x3eae_147b, DglabChannel::A, 20, 110, 170),
            active_route(0x3ee1_47ae, DglabChannel::A, 30, 120, 190),
            active_route(0x3e8f_5c29, DglabChannel::B, 24, 140, 220),
            active_route(0x3f0f_5c29, DglabChannel::B, 18, 80, 130),
        ],
        FactorySceneId::DnBRush => seq![
            active_route(0x3ecc_cccd, DglabChannel::A, 10, 70, 110),
            active_route(0x3f05_1eb8, DglabChannel::A, 14, 80, 120),
            active_route(0x3e99_999a, DglabChannel::B, 14, 85, 130),
            active_route(0x3eae_147b, DglabChannel::B, 8, 65, 100),
        ],
        FactorySceneId::AmbientTide => seq![
            active_route(0x3f1e_b852, DglabChannel::A, 140, 280, 520),
            active_route(0x3f0a_3d71, DglabChannel::A, 120, 260, 500),
            active_route(0x3ec2_8f5c, DglabChannel::B, 110, 280, 520),
            active_route(0x3eeb_851f, DglabChannel::B, 100, 240, 450),
        ],
        FactorySceneId::LoFiDrift => seq![
            active_route(0x3ef5_c28f, DglabChannel::A, 100, 220, 420),
            active_route(0x3ee1_47ae, DglabChannel::A, 110, 240, 450),
            active_route(0x3eb8_51ec, DglabChannel::B, 95, 220, 380),
            active_route(0x3f2e_147b, DglabChannel::B, 90, 150, 260),
        ],
    }
}

/// The strength ranges of a built-in scene.
pub open spec fn factory_ranges(id: FactorySceneId) -> (StrengthRange, StrengthRange) {
    match id {
        FactorySceneId::BalancedMotion => (StrengthRange { min: 10, max: 160 }, StrengthRange { min: 10, max: 160 }),
        FactorySceneId::EdmDrop => (StrengthRange { min: 28, max: 185 }, StrengthRange { min: 16, max: 150 }),
        FactorySceneId::TechnoRail => (StrengthRange { min: 22, max: 170 }, StrengthRange { min: 18, max: 140 }),
        FactorySceneId::HouseLift => (StrengthRange { min: 20, max: 170 }, StrengthRange { min: 14, max: 150 }),
        FactorySceneId::HipHopBounce => (StrengthRange { min: 30, max: 175 }, StrengthRange { min: 10, max: 125 }),
        FactorySceneId::PopVocalBloom => (StrengthRange { min: 12, max: 125 }, StrengthRange { min: 22, max: 155 }),
        FactorySceneId::AirSparkle => (StrengthRange { min: 10, max: 110 }, StrengthRange { min: 22, max: 145 }),
        FactorySceneId::RockDriver => (StrengthRange { min: 24, max: 170 }, StrengthRange { min: 18, max: 165 }),
        FactorySceneId::DnBRush => (StrengthRange { min: 20, max: 160 }, StrengthRange { min: 26, max: 180 }),
        FactorySceneId::AmbientTide => (StrengthRange { min: 8, max: 95 }, StrengthRange { min: 8, max: 105 }),
        FactorySceneId::LoFiDrift => (StrengthRange { min: 10, max: 110 }, StrengthRange { min: 10, max: 100 }),
    }
}

/// What drives a built-in scene, its pattern mode and its pattern.
pub open spec fn factory_style(id: FactorySceneId) -> (
    BandDriveMode,
    WaveformPatternMode,
    WaveformPattern,
) {
    match id {
        FactorySceneId::BalancedMotion => (
            BandDriveMode::Energy,
            WaveformPatternMode::AutoMorph,
            WaveformPattern::Smooth,
        ),
        FactorySceneId::EdmDrop => (
            BandDriveMode::Onset,
            WaveformPatternMode::Fixed,
            WaveformPattern::Punch,
        ),
        FactorySceneId::TechnoRail => (
            BandDriveMode::Energy,
            WaveformPatternMode::Fixed,
            WaveformPattern::Ripple,
        ),
        FactorySceneId::HouseLift => (
            BandDriveMode::Onset,
            WaveformPatternMode::Fixed,
            WaveformPattern::Tide,
        ),
        FactorySceneId::HipHopBounce => (
            BandDriveMode::Energy,
            WaveformPatternMode::Fixed,
            WaveformPattern::Punch,
        ),
        FactorySceneId::PopVocalBloom => (
            BandDriveMode::Energy,
            WaveformPatternMode::Fixed,
            WaveformPattern::Tide,
        ),
        FactorySceneId::AirSparkle => (
            BandDriveMode::Onset,
            WaveformPatternMode::Fixed,
            WaveformPattern::Shimmer,
        ),
        FactorySceneId::RockDriver => (
            BandDriveMode::Onset,
            WaveformPatternMode::Fixed,
            WaveformPattern::Ripple,
        ),
        FactorySceneId::DnBRush => (
            BandDriveMode::Onset,
            WaveformPatternMode::Fixed,
            WaveformPattern::Shimmer,
        ),
        FactorySceneId::AmbientTide => (
            BandDriveMode::Energy,
            WaveformPatternMode::AutoMorph,
            WaveformPattern::Smooth,
        ),
        FactorySceneId::LoFiDrift => (
            BandDriveMode::Energy,
            WaveformPatternMode::Fixed,
            WaveformPattern::Smooth,
        ),
    }
}

/// The bit patterns of a built-in scene's contrast and smoothness.
pub open spec fn factory_factors(id: FactorySceneId) -> (u32, u32) {
    match id {
        FactorySceneId::BalancedMotion => (0x3fe6_6666, 0x3f33_3333),
        FactorySceneId::EdmDrop => (0x4033_3333, 0x3e61_47ae),
        FactorySceneId::TechnoRail => (0x4000_0000, 0x3f14_7ae1),
        FactorySceneId::HouseLift => (0x4006_6666, 0x3ed7_0a3d),
        FactorySceneId::HipHopBounce => (0x3ff3_3333, 0x3f2e_147b),
        FactorySceneId::PopVocalBloom => (0x3fc6_6666, 0x3f4c_cccd),
        FactorySceneId::AirSparkle => (0x4006_6666, 0x3ee6_6666),
        FactorySceneId::RockDriver => (0x400c_cccd, 0x3eae_147b),
        FactorySceneId::DnBRush => (0x4026_6666, 0x3e19_999a),
        FactorySceneId::AmbientTide => (0x3f99_999a, 0x3f6b_851f),
        FactorySceneId::LoFiDrift => (0x3fa0_0000, 0x3f5c_28f6),
    }
}

/// The settings of a built-in scene.
pub open spec fn factory_scene(id: FactorySceneId) -> SceneView {
    SceneView {
        band_routing: factory_routes(id),
        strength_range_a: factory_ranges(id).0,
        strength_range_b: factory_ranges(id).1,
        auto_pulse_mode: AutoPulseMode::ByStrength,
        band_drive_mode: factory_style(id).0,
        waveform_pattern_mode: factory_style(id).1,
        waveform_pattern: factory_style(id).2,
        waveform_contrast: Level { bits: factory_factors(id).0 },
        smooth_strength_enabled: true,
        smooth_strength_factor: Level { bits: factory_factors(id).1 },
    }
}

fn factory_routing(id: FactorySceneId) -> (r: [BandRouting; BAND_COUNT])
    ensures
        r@ == factory_routes(id),
{
    match id {
        FactorySceneId::BalancedMotion => default_band_routing(),
        FactorySceneId::EdmDrop => [
            route(0x3e8f_5c29, DglabChannel::A, 15, 90, 150),
            route(0x3ecc_cccd, DglabChannel::A, 20, 100, 170),
            route(0x3ee1_47ae, DglabChannel::B, 24, 110, 180),
            route(0x3f19_999a, DglabChannel::B, 12, 70, 120),
        ],
        FactorySceneId::TechnoRail => [
            route(0x3eae_147b, DglabChannel::A, 35, 130, 220),
            route(0x3ec2_8f5c, DglabChannel::A, 40, 140, 240),
            route(0x3eeb_851f, DglabChannel::B, 32, 110, 180),
            route(0x3f14_7ae1, DglabChannel::B, 22, 80, 130),
        ],
        FactorySceneId::HouseLift => [
            route(0x3ea3_d70a, DglabChannel::A, 18, 100, 160),
            route(0x3ed7_0a3d, DglabChannel::A, 28, 110, 170),
            route(0x3eae_147b, DglabChannel::B, 24, 130, 200),
            route(0x3eeb_851f, DglabChannel::B, 14, 85, 135),
        ],
        FactorySceneId::HipHopBounce => [
            route(0x3e99_999a, DglabChannel::A, 60, 180, 320),
            route(0x3ecc_cccd, DglabChannel::A, 70, 190, 330),
            route(0x3ed7_0a3d, DglabChannel::B, 55, 150, 260),
            route(0x3f38_51ec, DglabChannel::B, 30, 90, 140),
        ],
        FactorySceneId::PopVocalBloom => [
            route(0x3f14_7ae1, DglabChannel::A, 50, 120, 230),
            route(0x3f05_1eb8, DglabChannel::A, 55, 140, 240),
            route(0x3e75_c28f, DglabChannel::B, 45, 180, 300),
            route(0x3f14_7ae1, DglabChannel::B, 35, 100, 170),
        ],
        FactorySceneId::AirSparkle => [
            route(0x3f19_999a, DglabChannel::A, 40, 100, 180),
            route(0x3f0a_3d71, DglabChannel::A, 35, 100, 180),
            route(0x3ecc_cccd, DglabChannel::B, 30, 110, 200),
            route(0x3ee1_47ae, DglabChannel::B, 18, 90, 150),
        ],
        FactorySceneId::RockDriver => [
            route(0x3eae_147b, DglabChannel::A, 20, 110, 170),
            route(0x3ee1_47ae, DglabChannel::A, 30, 120, 190),
            route(0x3e8f_5c29, DglabChannel::B, 24, 140, 220),
            route(0x3f0f_5c29, DglabChannel::B, 18, 80, 130),
        ],
        FactorySceneId::DnBRush => [
            route(0x3ecc_cccd, DglabChannel::A, 10, 70, 110),
            route(0x3f05_1eb8, DglabChannel::A, 14, 80, 120),
            route(0x3e99_999a, DglabChannel::B, 14, 85, 130),
            route(0x3eae_147b, DglabChannel::B, 8, 65, 100),
        ],
        FactorySceneId::AmbientTide => [
            route(0x3f1e_b852, DglabChannel::A, 140, 280, 520),
            route(0x3f0a_3d71, DglabChannel::A, 120, 260, 500),
            route(0x3ec2_8f5c, DglabChannel::B, 110, 280, 520),
            route(0x3eeb_851f, DglabChannel::B, 100, 240, 450),
        ],
        FactorySceneId::LoFiDrift => [
            route(0x3ef5_c28f, DglabChannel::A, 100, 220, 420),
            route(0x3ee1_47ae, DglabChannel::A, 110, 240, 450),
            route(0x3eb8_51ec, DglabChannel::B, 95, 220, 380),
            route(0x3f2e_147b, DglabChannel::B, 90, 150, 260),
        ],
    }
}

fn factory_range_pair(id: FactorySceneId) -> (r: (StrengthRange, StrengthRange))
    ensures
        r == factory_ranges(id),
{
    match id {
        FactorySceneId::BalancedMotion => (StrengthRange::new(10, 160), StrengthRange::new(10, 160)),
        FactorySceneId::EdmDrop => (StrengthRange::new(28, 185), StrengthRange::new(16, 150)),
        FactorySceneId::TechnoRail => (StrengthRange::new(22, 170), StrengthRange::new(18, 140)),
        FactorySceneId::HouseLift => (StrengthRange::new(20, 170), StrengthRange::new(14, 150)),
        FactorySceneId::HipHopBounce => (StrengthRange::new(30, 175), StrengthRange::new(10, 125)),
        FactorySceneId::PopVocalBloom => (StrengthRange::new(12, 125), StrengthRange::new(22, 155)),
        FactorySceneId::AirSparkle => (StrengthRange::new(10, 110), StrengthRange::new(22, 145)),
        FactorySceneId::RockDriver => (StrengthRange::new(24, 170), StrengthRange::new(18, 165)),
        FactorySceneId::DnBRush => (StrengthRange::new(20, 160), StrengthRange::new(26, 180)),
        FactorySceneId::AmbientTide => (StrengthRange::new(8, 95), StrengthRange::new(8, 105)),
        FactorySceneId::LoFiDrift => (StrengthRange::new(10, 110), StrengthRange::new(10, 100)),
    }
}

fn factory_modes(id: FactorySceneId) -> (r: (BandDriveMode, WaveformPatternMode, WaveformPattern))
    ensures
        r == factory_style(id),
{
    match id {
        FactorySceneId::BalancedMotion => (
            BandDriveMode::Energy,
            WaveformPatternMode::AutoMorph,
            WaveformPattern::Smooth,
        ),
        FactorySceneId::EdmDrop => (
            BandDriveMode::Onset,
            WaveformPatternMode::Fixed,
            WaveformPattern::Punch,
        ),
        FactorySceneId::TechnoRail => (
            BandDriveMode::Energy,
            WaveformPatternMode::Fixed,
            WaveformPattern::Ripple,
        ),
        FactorySceneId::HouseLift => (
            BandDriveMode::Onset,
            WaveformPatternMode::Fixed,
            WaveformPattern::Tide,
        ),
        FactorySceneId::HipHopBounce => (
            BandDriveMode::Energy,
            WaveformPatternMode::Fixed,
            WaveformPattern::Punch,
        ),
        FactorySceneId::PopVocalBloom => (
            BandDriveMode::Energy,
            WaveformPatternMode::Fixed,
            WaveformPattern::Tide,
        ),
        FactorySceneId::AirSparkle => (
            BandDriveMode::Onset,
            WaveformPatternMode::Fixed,
            WaveformPattern::Shimmer,
        ),
        FactorySceneId::RockDriver => (
            BandDriveMode::Onset,
            WaveformPatternMode::Fixed,
            WaveformPattern::Ripple,
        ),
        FactorySceneId::DnBRush => (
            BandDriveMode::Onset,
            WaveformPatternMode::Fixed,
            WaveformPattern::Shimmer,
        ),
        FactorySceneId::AmbientTide => (
            BandDriveMode::Energy,
            WaveformPatternMode::AutoMorph,
            WaveformPattern::Smooth,
        ),
        FactorySceneId::LoFiDrift => (
            BandDriveMode::Energy,
            WaveformPatternMode::Fixed,
            WaveformPattern::Smooth,
        ),
    }
}

fn factory_factor_bits(id: FactorySceneId) -> (r: (u32, u32))
    ensures
        r == factory_factors(id),
{
    match id {
        FactorySceneId::BalancedMotion => (0x3fe6_6666, 0x3f33_3333),
        FactorySceneId::EdmDrop => (0x4033_3333, 0x3e61_47ae),
        FactorySceneId::TechnoRail => (0x4000_0000, 0x3f14_7ae1),
        FactorySceneId::HouseLift => (0x4006_6666, 0x3ed7_0a3d),
        FactorySceneId::HipHopBounce => (0x3ff3_3333, 0x3f2e_147b),
        FactorySceneId::PopVocalBloom => (0x3fc6_6666, 0x3f4c_cccd),
        FactorySceneId::AirSparkle => (0x4006_6666, 0x3ee6_6666),
        FactorySceneId::RockDriver => (0x400c_cccd, 0x3eae_147b),
        FactorySceneId::DnBRush => (0x4026_6666, 0x3e19_999a),
        FactorySceneId::AmbientTide => (0x3f99_999a, 0x3f6b_851f),
        FactorySceneId::LoFiDrift => (0x3fa0_0000, 0x3f5c_28f6),
    }
}

fn factory_texts(id: FactorySceneId) -> (r: (
    &'static str,
    &'static str,
    &'static str,
    &'static str,
))
    ensures
        (r.0@, r.1@) == factory_names(id),
        (r.2@, r.3@) == factory_summaries(id),
{
    match id {
        FactorySceneId::BalancedMotion => (
            "Balanced Motion",
            "均衡律动",
            "General music preset with balanced movement and auto-morph waveform.",
            "适合大多数音乐的均衡预设，带自动形变波形。",
        ),
        FactorySceneId::EdmDrop => (
            "EDM Drop",
            "电音 Drop",
            "Big-room style: hard kick impact, bright tops, fast transient reaction.",
            "偏大房电音：底鼓冲击强、顶部亮、瞬态反应快。",
        ),
        FactorySceneId::TechnoRail => (
            "Techno Rail",
            "Techno 脉冲",
            "Steady low-end engine with a linear rolling pulse for hypnotic techno grooves.",
            "持续低频引擎感，滚动脉冲更适合催眠式 techno 律动。",
        ),
        FactorySceneId::HouseLift => (
            "House Lift",
            "House 抬升",
            "Four-on-the-floor kick with clap and hat lift, tuned for house and disco-pop.",
            "四拍底鼓配合 clap 和帽子上扬，更适合 house 和 disco-pop。",
        ),
        FactorySceneId::HipHopBounce => (
            "Hip-Hop Bounce",
            "嘻哈弹跳",
            "Heavy sub and bass hold longer, with less top-end chatter and a slower bounce.",
            "超低频和贝斯停留更久，高频更克制，整体更慢更弹。",
        ),
        FactorySceneId::PopVocalBloom => (
            "Pop Vocal Bloom",
            "流行人声绽放",
            "Pushes vocal and lead presence forward while keeping bass supportive instead of dominant.",
            "把人声和主旋律推到前面，让低频更多扮演陪衬而不是主导。",
        ),
        FactorySceneId::AirSparkle => (
            "Air Sparkle",
            "空气闪烁",
            "Highlights hats, shimmer, and top-end details with a brighter pulse feel.",
            "突出踩镲、亮度和高频细节，波形更轻快明亮。",
        ),
        FactorySceneId::RockDriver => (
            "Rock Driver",
            "摇滚推进",
            "Snare crack, guitar midrange, and kick all stay active without turning the mix into pure sub.",
            "保留军鼓脆点、吉他中频和底鼓推进，不会只剩一团低频。",
        ),
        FactorySceneId::DnBRush => (
            "Drum & Bass Rush",
            "鼓打贝斯疾冲",
            "Very fast breakbeat scene with aggressive highs and transient-focused top-end energy.",
            "更快的 breakbeat 场景，高频更凶，瞬态导向更明显。",
        ),
        FactorySceneId::AmbientTide => (
            "Ambient Tide",
            "氛围潮汐",
            "Slow swells and broad movement for pads, drones, ambient pop, and cinematic wash.",
            "适合 pad、drone、氛围流行和电影化铺底，强调缓慢起伏。",
        ),
        FactorySceneId::LoFiDrift => (
            "Lo-fi Drift",
            "低保真漂移",
            "Soft, lazy movement that suits lo-fi beats, mellow keys, and dusty background groove.",
            "更柔、更懒、更慢，适合 lo-fi beat、温和键盘和尘感背景律动。",
        ),
    }
}

/// The built-in scene with the given id.
pub fn factory_scene_preset(id: FactorySceneId) -> (r: FactoryScenePreset)
    ensures
        r.is_preset(id),
{
    let (name_en, name_zh, summary_en, summary_zh) = factory_texts(id);
    let (strength_range_a, strength_range_b) = factory_range_pair(id);
    let (band_drive_mode, waveform_pattern_mode, waveform_pattern) = factory_modes(id);
    let (contrast, smoothness) = factory_factor_bits(id);
    FactoryScenePreset {
        id,
        name_en,
        name_zh,
        summary_en,
        summary_zh,
        config: SceneConfig {
            band_routing: factory_routing(id),
            strength_range_a,
            strength_range_b,
            auto_pulse_mode: AutoPulseMode::ByStrength,
            band_drive_mode,
            waveform_pattern_mode,
            waveform_pattern,
            waveform_contrast: Level::from_bits(contrast),
            smooth_strength_enabled: true,
            smooth_strength_factor: Level::from_bits(smoothness),
        },
    }
}

/// The ids of the built-in scenes, in the order in which they are offered.
pub open spec fn factory_ids() -> Seq<FactorySceneId> {
    seq![
        FactorySceneId::BalancedMotion,
        FactorySceneId::EdmDrop,
        FactorySceneId::TechnoRail,
        FactorySceneId::HouseLift,
        FactorySceneId::HipHopBounce,
        FactorySceneId::PopVocalBloom,
        FactorySceneId::AirSparkle,
        FactorySceneId::RockDriver,
        FactorySceneId::DnBRush,
        FactorySceneId::AmbientTide,
        FactorySceneId::LoFiDrift,
    ]
}

/// The built-in scenes.
pub fn factory_scene_presets() -> (r: Vec<FactoryScenePreset>)
    ensures
        r@.len() == factory_ids().len(),
        forall|i: int| 0 <= i < r@.len() ==> (#[trigger] r@[i]).is_preset(factory_ids()[i]),
{
    let mut r: Vec<FactoryScenePreset> = Vec::new();
    r.push(factory_scene_preset(FactorySceneId::BalancedMotion));
    r.push(factory_scene_preset(FactorySceneId::EdmDrop));
    r.push(factory_scene_preset(FactorySceneId::TechnoRail));
    r.push(factory_scene_preset(FactorySceneId::HouseLift));
    r.push(factory_scene_preset(FactorySceneId::HipHopBounce));
    r.push(factory_scene_preset(FactorySceneId::PopVocalBloom));
    r.push(factory_scene_preset(FactorySceneId::AirSparkle));
    r.push(factory_scene_preset(FactorySceneId::RockDriver));
    r.push(factory_scene_preset(FactorySceneId::DnBRush));
    r.push(factory_scene_preset(FactorySceneId::AmbientTide));
    r.push(factory_scene_preset(FactorySceneId::LoFiDrift));
    r
}

/// What the slots hold.
pub open spec fn slot_views(slots: Seq<Option<SavedScene>>) -> Seq<Option<SavedView>> {
    Seq::new(slots.len(), |i: int| slot_view(slots[i]))
}

pub open spec fn slot_view(slot: Option<SavedScene>) -> Option<SavedView> {
    match slot {
        Some(scene) => Some(scene@),
        None => None,
    }
}

/// All slots empty.
pub open spec fn no_scenes() -> Seq<Option<SavedView>> {
    seq![None, None, None, None]
}

pub fn empty_scene_slots() -> (r: Vec<Option<SavedScene>>)
    ensures
        r@.len() == USER_SCENE_SLOT_COUNT,
        slot_views(r@) == no_scenes(),
{
    let mut r: Vec<Option<SavedScene>> = Vec::new();
    r.push(None);
    r.push(None);
    r.push(None);
    r.push(None);
    assert(slot_views(r@) =~= no_scenes());
    r
}

/// A copy of the slots.
pub fn copy_scene_slots(slots: &Vec<Option<SavedScene>>) -> (r: Vec<Option<SavedScene>>)
    ensures
        r@.len() == slots@.len(),
        slot_views(r@) == slot_views(slots@),
{
    let mut r: Vec<Option<SavedScene>> = Vec::new();
    let mut i: usize = 0;
    while i < slots.len()
        invariant
            i <= slots@.len(),
            r@.len() == i,
            forall|j: int| 0 <= j < i ==> slot_view(#[trigger] r@[j]) == slot_view(slots@[j]),
        decreases slots@.len() - i,
    {
        let slot = match &slots[i] {
            Some(scene) => Some(scene.clone()),
            None => None,
        };
        let ghost before = r@;
        r.push(slot);
        assert forall|j: int| 0 <= j < i + 1 implies slot_view(#[trigger] r@[j]) == slot_view(
            slots@[j],
        ) by {
            if j < i {
                assert(r@[j] == before[j]);
            }
        }
        i += 1;
    }
    assert(slot_views(r@) =~= slot_views(slots@));
    r
}

/// The name of a kept scene: trimmed, or by its slot if blank.
pub open spec fn tidy_name(name: Seq<char>, index: int) -> Seq<char> {
    if text::trimmed(name).len() > 0 {
        text::trimmed(name)
    } else {
        "Scene "@ + text::decimal((index + 1) as nat)
    }
}

/// The slots with everything in order: as many as there are, names and values
/// tidied.
pub open spec fn tidied_slots(slots: Seq<Option<SavedView>>) -> Seq<Option<SavedView>> {
    Seq::new(
        USER_SCENE_SLOT_COUNT as nat,
        |i: int|
            if i < slots.len() {
                match slots[i] {
                    Some(scene) => Some(
                        SavedView {
                            name: tidy_name(scene.name, i),
                            config: scene.config.tidied(),
                        },
                    ),
                    None => None,
                }
            } else {
                None
            },
    )
}

/// Puts kept scenes in order: missing slots are added, surplus ones dropped,
/// names and values tidied.
pub fn normalize_saved_scenes(scenes: Vec<Option<SavedScene>>) -> (r: Vec<Option<SavedScene>>)
    ensures
        r@.len() == USER_SCENE_SLOT_COUNT,
        slot_views(r@) == tidied_slots(slot_views(scenes@)),
{
    let ghost given = slot_views(scenes@);
    let mut r: Vec<Option<SavedScene>> = Vec::new();
    let mut i: usize = 0;
    while i < USER_SCENE_SLOT_COUNT
        invariant
            given == slot_views(scenes@),
            i <= USER_SCENE_SLOT_COUNT,
            r@.len() == i,
            forall|j: int| 0 <= j < i ==> slot_view(#[trigger] r@[j]) == tidied_slots(given)[j],
        decreases USER_SCENE_SLOT_COUNT - i,
    {
        let slot = if i < scenes.len() {
            assert(given[i as int] == slot_view(scenes@[i as int]));
            match &scenes[i] {
                Some(scene) => {
                    let trimmed = trim_text(scene.name.as_str());
                    let name = if trimmed.unicode_len() == 0 {
                        let mut name = "Scene ".to_owned();
                        push_decimal(&mut name, i as u64 + 1);
                        name
                    } else {
                        trimmed.to_owned()
                    };
                    Some(SavedScene { name, config: scene.config.sanitized() })
                },
                None => None,
            }
        } else {
            None
        };
        let ghost before = r@;
        r.push(slot);
        assert forall|j: int| 0 <= j < i + 1 implies slot_view(#[trigger] r@[j])
            == tidied_slots(given)[j] by {
            if j < i {
                assert(r@[j] == before[j]);
            }
        }
        i += 1;
    }
    assert(slot_views(r@) =~= tidied_slots(given));
    r
}

/// Tidying a scene a second time changes nothing.
pub proof fn law_tidied_scene_is_stable(scene: SceneView)
    ensures
        scene.tidied().tidied() == scene.tidied(),
{
    let once = types::limited_routing(scene.band_routing);
    assert(types::limited_routing(once) =~= once);
}

/// The built-in scenes are tidy as they are.
pub proof fn law_factory_scenes_are_tidy(id: FactorySceneId)
    ensures
        factory_scene(id).tidied() == factory_scene(id),
        factory_routes(id).len() == BAND_COUNT,
{
    assert(types::limited_routing(factory_routes(id)) =~= factory_routes(id));
}

/// A tidied scene has every value in its range, those that stand for no number
/// aside, and keeps its modes.
pub proof fn law_tidied_scene_is_in_range(scene: SceneView)
    ensures
        ({
            let r = scene.tidied();
            &&& r.band_routing.len() == scene.band_routing.len()
            &&& forall|i: int|
                0 <= i < r.band_routing.len() ==> {
                    let route = #[trigger] r.band_routing[i];
                    &&& route.enabled == scene.band_routing[i].enabled
                    &&& route.channel == scene.band_routing[i].channel
                    &&& !scene.band_routing[i].threshold.is_nan() ==> (Level { bits: ZERO }).le(
                        route.threshold,
                    ) && route.threshold.le(Level { bits: ONE })
                    &&& route.attack_ms <= MAX_ENVELOPE_MS
                    &&& route.hold_ms <= MAX_ENVELOPE_MS
                    &&& route.release_ms <= MAX_ENVELOPE_MS
                }
            &&& r.strength_range_a == scene.strength_range_a.ordered()
            &&& r.strength_range_b == scene.strength_range_b.ordered()
            &&& r.strength_range_a.min <= r.strength_range_a.max <= types::MAX_STRENGTH
            &&& r.strength_range_b.min <= r.strength_range_b.max <= types::MAX_STRENGTH
            &&& !scene.waveform_contrast.is_nan() ==> (Level { bits: ONE }).le(r.waveform_contrast)
                && r.waveform_contrast.le(Level { bits: FOUR })
            &&& !scene.smooth_strength_factor.is_nan() ==> (Level { bits: ZERO }).le(
                r.smooth_strength_factor,
            ) && r.smooth_strength_factor.le(Level { bits: ONE })
            &&& r.auto_pulse_mode == scene.auto_pulse_mode
            &&& r.band_drive_mode == scene.band_drive_mode
            &&& r.waveform_pattern_mode == scene.waveform_pattern_mode
            &&& r.waveform_pattern == scene.waveform_pattern
            &&& r.smooth_strength_enabled == scene.smooth_strength_enabled
        }),
{
}

/// Every slot holds what was given for it, with its name trimmed, or after the
/// slot where it is blank, and its values tidied. Slots that nothing was given
/// for are empty, and all of them where nothing was given at all.
pub proof fn law_tidied_slots_hold_what_was_given(slots: Seq<Option<SavedView>>, i: int)
    requires
        0 <= i < USER_SCENE_SLOT_COUNT,
    ensures
        tidied_slots(slots).len() == USER_SCENE_SLOT_COUNT,
        tidied_slots(slots)[i] is Some <==> i < slots.len() && slots[i] is Some,
        tidied_slots(slots)[i] is Some ==> {
            let given = slots[i]->0;
            let r = tidied_slots(slots)[i]->0;
            &&& text::trimmed(given.name).len() > 0 ==> r.name == text::trimmed(given.name)
            &&& text::trimmed(given.name).len() == 0 ==> r.name == "Scene "@ + text::decimal(
                (i + 1) as nat,
            )
            &&& r.config == given.config.tidied()
        },
        tidied_slots(Seq::empty()) == no_scenes(),
{
    assert(tidied_slots(Seq::empty()) =~= no_scenes());
}

/// Putting kept scenes in order a second time changes nothing.
pub proof fn law_tidied_slots_are_stable(slots: Seq<Option<SavedView>>)
    ensures
        tidied_slots(slots).len() == USER_SCENE_SLOT_COUNT,
        tidied_slots(tidied_slots(slots)) == tidied_slots(slots),
{
    let once = tidied_slots(slots);
    let twice = tidied_slots(once);
    assert forall|i: int| 0 <= i < USER_SCENE_SLOT_COUNT implies twice[i] == once[i] by {
        if i < slots.len() {
            match slots[i] {
                Some(scene) => {
                    law_tidied_scene_is_stable(scene.config);
                    lemma_tidy_name_is_stable(scene.name, i);
                },
                None => {},
            }
        }
    }
    assert(twice =~= once);
}

proof fn lemma_tidy_name_is_stable(name: Seq<char>, index: int)
    requires
        0 <= index,
    ensures
        tidy_name(tidy_name(name, index), index) == tidy_name(name, index),
{
    let t = tidy_name(name, index);
    if text::trimmed(name).len() > 0 {
        text::lemma_trim_facts(name, text::CharClass::Space);
        assert(text::trimmed(t) == t);
    } else {
        reveal_strlit("Scene ");
        let digits = text::decimal((index + 1) as nat);
        text::lemma_decimal_number((index + 1) as nat);
        assert(text::is_digit(digits[digits.len() - 1]));
        assert(t.last() == digits.last());
        assert(t[0] == 'S');
        assert(text::trimmed(t) == t);
    }
}

/// Values that are in their ranges, or stand for no number, are kept, and those
/// beyond them become the nearer end: a contrast goes from one to four, a
/// smoothness and a trigger from zero to one, a strength to 200.
pub proof fn law_tidying_keeps_what_is_in_range(scene: SceneView)
    ensures
        ({
            let r = scene.tidied();
            let one = Level { bits: 0x3f80_0000 };
            let four = Level { bits: 0x4080_0000 };
            let zero = Level { bits: 0 };
            &&& scene.waveform_contrast.is_nan() || (one.le(scene.waveform_contrast)
                && scene.waveform_contrast.le(four)) ==> r.waveform_contrast
                == scene.waveform_contrast
            &&& scene.waveform_contrast.lt(one) ==> r.waveform_contrast == one
            &&& four.lt(scene.waveform_contrast) ==> r.waveform_contrast == four
            &&& scene.smooth_strength_factor.is_nan() || (zero.le(scene.smooth_strength_factor)
                && scene.smooth_strength_factor.le(one)) ==> r.smooth_strength_factor
                == scene.smooth_strength_factor
            &&& scene.smooth_strength_factor.lt(zero) ==> r.smooth_strength_factor == zero
            &&& one.lt(scene.smooth_strength_factor) ==> r.smooth_strength_factor == one
            &&& scene.strength_range_a.min <= scene.strength_range_a.max <= 200
                ==> r.strength_range_a == scene.strength_range_a
            &&& scene.strength_range_b.min <= scene.strength_range_b.max <= 200
                ==> r.strength_range_b == scene.strength_range_b
        }),
{
}

/// The built-in scenes send their two low bands to channel A and their two high
/// ones to channel B, all of them in use, with ranges in order within 200, smooth
/// and by strength. The first one is the scene of a new window.
pub proof fn law_factory_scenes_are_laid_out_alike(id: FactorySceneId, i: int)
    requires
        0 <= i < 4,
    ensures
        ({
            let scene = factory_scene(id);
            &&& scene.band_routing[i].enabled
            &&& scene.band_routing[i].channel == if i < 2 {
                DglabChannel::A
            } else {
                DglabChannel::B
            }
            &&& 0 < scene.band_routing[i].attack_ms < scene.band_routing[i].hold_ms
                < scene.band_routing[i].release_ms
            &&& 0 < scene.strength_range_a.min < scene.strength_range_a.max < 200
            &&& 0 < scene.strength_range_b.min < scene.strength_range_b.max < 200
            &&& scene.auto_pulse_mode == AutoPulseMode::ByStrength
            &&& scene.smooth_strength_enabled
            &&& scene.waveform_pattern_mode == WaveformPatternMode::AutoMorph
                ==> scene.waveform_pattern == WaveformPattern::Smooth
        }),
        factory_scene(FactorySceneId::BalancedMotion) == SceneView::usual(),
        SceneView::usual().waveform_contrast == (Level { bits: 0x3fe6_6666 }),
        SceneView::usual().smooth_strength_factor == (Level { bits: 0x3f33_3333 }),
{
}

/// In every band the drum and bass scene is the quickest of the built-in ones and
/// the ambient scene the slowest; they are the least and the most smooth.
pub proof fn law_factory_scenes_are_as_quick_as_they_say(id: FactorySceneId, i: int)
    requires
        0 <= i < 4,
    ensures
        ({
            let scene = factory_scene(id);
            let quick = factory_scene(FactorySceneId::DnBRush);
            let slow = factory_scene(FactorySceneId::AmbientTide);
            let route = scene.band_routing[i];
            &&& quick.band_routing[i].attack_ms <= route.attack_ms <= slow.band_routing[i].attack_ms
            &&& quick.band_routing[i].hold_ms <= route.hold_ms <= slow.band_routing[i].hold_ms
            &&& quick.band_routing[i].release_ms <= route.release_ms
                <= slow.band_routing[i].release_ms
            &&& quick.smooth_strength_factor.le(scene.smooth_strength_factor)
            &&& scene.smooth_strength_factor.le(slow.smooth_strength_factor)
            &&& slow.waveform_contrast.le(scene.waveform_contrast)
            &&& scene.waveform_contrast.le(
                factory_scene(FactorySceneId::EdmDrop).waveform_contrast,
            )
        }),
{
}

/// Every built-in scene is offered, and offered once.
pub proof fn law_every_factory_scene_is_offered(id: FactorySceneId)
    ensures
        factory_ids().len() == 11,
        factory_ids().contains(id),
        forall|i: int, j: int|
            0 <= i < j < factory_ids().len() ==> #[trigger] factory_ids()[i]
                != #[trigger] factory_ids()[j],
{
    let ids = factory_ids();
    let i: int = match id {
        FactorySceneId::BalancedMotion => 0,
        FactorySceneId::EdmDrop => 1,
        FactorySceneId::TechnoRail => 2,
        FactorySceneId::HouseLift => 3,
        FactorySceneId::HipHopBounce => 4,
        FactorySceneId::PopVocalBloom => 5,
        FactorySceneId::AirSparkle => 6,
        FactorySceneId::RockDriver => 7,
        FactorySceneId::DnBRush => 8,
        FactorySceneId::AmbientTide => 9,
        FactorySceneId::LoFiDrift => 10,
    };
    assert(ids[i] == id);
}

/// A built-in scene is offered under its own id, with its own names, summaries and
/// settings; no two of them have the same name.
pub proof fn law_presets_are_told_apart(
    preset: FactoryScenePreset,
    id: FactorySceneId,
    other: FactorySceneId,
)
    requires
        preset.is_preset(id),
    ensures
        preset.id == id,
        preset.config@ == factory_scene(id),
        preset.name_en@ == factory_names(id).0 && preset.name_zh@ == factory_names(id).1,
        preset.summary_en@ == factory_summaries(id).0 && preset.summary_zh@
            == factory_summaries(id).1,
        id != other ==> preset.name_en@ != factory_names(other).0,
{
    reveal_strlit("Balanced Motion");
    reveal_strlit("EDM Drop");
    reveal_strlit("Techno Rail");
    reveal_strlit("House Lift");
    reveal_strlit("Hip-Hop Bounce");
    reveal_strlit("Pop Vocal Bloom");
    reveal_strlit("Air Sparkle");
    reveal_strlit("Rock Driver");
    reveal_strlit("Drum & Bass Rush");
    reveal_strlit("Ambient Tide");
    reveal_strlit("Lo-fi Drift");
    let a = factory_names(id).0;
    let b = factory_names(other).0;
    if id != other {
        assert(a.len() != b.len() || a[0] != b[0] || a[1] != b[1]);
    }
}

} // verus!
