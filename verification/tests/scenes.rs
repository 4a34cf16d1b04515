use dglab_audio_link::app::scenes::{
    empty_scene_slots, factory_scene_preset, factory_scene_presets, normalize_saved_scenes,
    FactorySceneId, SavedScene, SceneConfig,
};
use dglab_audio_link::level::Level;
use dglab_audio_link::types::{
    band_profile, default_band_routing, BandDriveMode, BandRouting, DglabChannel, StrengthRange,
    WaveformPattern, WaveformPatternMode,
};

fn level(x: f32) -> Level {
    Level::from_bits(x.to_bits())
}

#[test]
fn factory_presets_cover_each_id() {
    assert_eq!(
        factory_scene_preset(FactorySceneId::BalancedMotion).id,
        FactorySceneId::BalancedMotion
    );
    assert_eq!(
        factory_scene_preset(FactorySceneId::EdmDrop).id,
        FactorySceneId::EdmDrop
    );
    assert_eq!(
        factory_scene_preset(FactorySceneId::TechnoRail).id,
        FactorySceneId::TechnoRail
    );
    assert_eq!(
        factory_scene_preset(FactorySceneId::HouseLift).id,
        FactorySceneId::HouseLift
    );
    assert_eq!(
        factory_scene_preset(FactorySceneId::HipHopBounce).id,
        FactorySceneId::HipHopBounce
    );
    assert_eq!(
        factory_scene_preset(FactorySceneId::PopVocalBloom).id,
        FactorySceneId::PopVocalBloom
    );
    assert_eq!(
        factory_scene_preset(FactorySceneId::AirSparkle).id,
        FactorySceneId::AirSparkle
    );
    assert_eq!(
        factory_scene_preset(FactorySceneId::RockDriver).id,
        FactorySceneId::RockDriver
    );
    assert_eq!(
        factory_scene_preset(FactorySceneId::DnBRush).id,
        FactorySceneId::DnBRush
    );
    assert_eq!(
        factory_scene_preset(FactorySceneId::AmbientTide).id,
        FactorySceneId::AmbientTide
    );
    assert_eq!(
        factory_scene_preset(FactorySceneId::LoFiDrift).id,
        FactorySceneId::LoFiDrift
    );
    assert_eq!(factory_scene_presets().len(), 11);
}

#[test]
fn normalizes_scene_slots_and_names() {
    let normalized = normalize_saved_scenes(vec![Some(SavedScene {
        name: "   ".to_owned(),
        config: SceneConfig::default(),
    })]);
    assert_eq!(normalized.len(), 4);
    assert_eq!(
        normalized[0].as_ref().map(|scene| scene.name.as_str()),
        Some("Scene 1")
    );
}

#[test]
fn creates_empty_scene_slots() {
    let slots = empty_scene_slots();
    assert_eq!(slots.len(), 4);
    assert!(slots.iter().all(Option::is_none));
}

#[test]
fn presets_hold_their_values() {
    let edm = factory_scene_preset(FactorySceneId::EdmDrop);
    assert_eq!(edm.name_en, "EDM Drop");
    assert_eq!(edm.name_zh, "电音 Drop");
    assert_eq!(edm.config.band_routing[0].threshold.bits, level(0.28).bits);
    assert_eq!(edm.config.band_routing[3].release_ms, 120);
    assert_eq!(edm.config.strength_range_a, StrengthRange::new(28, 185));
    assert_eq!(edm.config.band_drive_mode, BandDriveMode::Onset);
    assert_eq!(edm.config.waveform_pattern, WaveformPattern::Punch);
    assert_eq!(edm.config.waveform_contrast.bits, level(2.8).bits);
    assert_eq!(edm.config.smooth_strength_factor.bits, level(0.22).bits);
    let tide = factory_scene_preset(FactorySceneId::AmbientTide);
    assert_eq!(tide.config.waveform_pattern_mode, WaveformPatternMode::AutoMorph);
    assert_eq!(tide.config.band_routing[1].attack_ms, 120);
    let balanced = factory_scene_preset(FactorySceneId::default());
    assert_eq!(balanced.config, SceneConfig::default());
}

#[test]
fn presets_are_tidy_already() {
    for preset in factory_scene_presets() {
        assert_eq!(preset.config.sanitized(), preset.config);
    }
}

#[test]
fn tidying_brings_values_into_range() {
    let mut config = SceneConfig::default();
    config.strength_range_a = StrengthRange::new(500, 20);
    config.waveform_contrast = level(9.0);
    config.smooth_strength_factor = level(-1.0);
    config.band_routing[2].threshold = level(1.5);
    config.band_routing[2].hold_ms = 60000;
    let tidy = config.sanitized();
    assert_eq!(tidy.strength_range_a, StrengthRange::new(20, 200));
    assert_eq!(tidy.waveform_contrast.bits, level(4.0).bits);
    assert_eq!(tidy.smooth_strength_factor.bits, level(0.0).bits);
    assert_eq!(tidy.band_routing[2].threshold.bits, level(1.0).bits);
    assert_eq!(tidy.band_routing[2].hold_ms, 2000);
    assert_eq!(tidy.sanitized(), tidy);
}

#[test]
fn surplus_slots_are_dropped_and_names_trimmed() {
    let scene = |name: &str| {
        Some(SavedScene { name: name.to_owned(), config: SceneConfig::default() })
    };
    let slots = normalize_saved_scenes(vec![
        None,
        scene("  two "),
        None,
        scene(""),
        scene("five"),
    ]);
    assert_eq!(slots.len(), 4);
    assert!(slots[0].is_none() && slots[2].is_none());
    assert_eq!(slots[1].as_ref().map(|s| s.name.as_str()), Some("two"));
    assert_eq!(slots[3].clone().map(|s| s.name).as_deref(), Some("Scene 4"));
    assert_eq!(normalize_saved_scenes(slots.clone()), slots);
}

#[test]
fn bands_have_their_profiles() {
    let kick = band_profile(0);
    assert_eq!(kick.short_name_en, "Kick / Sub");
    assert_eq!(kick.range_hz(), (30, 110));
    assert_eq!(kick.recommended_threshold.bits, level(0.38).bits);
    assert_eq!(band_profile(1).recommended_threshold.bits, level(0.46).bits);
    assert_eq!(band_profile(2).recommended_threshold.bits, level(0.32).bits);
    let air = band_profile(3);
    assert_eq!((air.low_hz, air.focus_hz, air.high_hz), (2200, 6000, 12000));
    assert_eq!(air.recommended_threshold.bits, level(0.54).bits);
}

#[test]
fn standard_routes_split_the_bands() {
    let routes = default_band_routing();
    assert_eq!(
        routes.map(|r| r.channel),
        [DglabChannel::A, DglabChannel::A, DglabChannel::B, DglabChannel::B]
    );
    let route = BandRouting::default();
    assert_eq!((route.attack_ms, route.hold_ms, route.release_ms), (60, 140, 260));
    assert_eq!(route.threshold.bits, level(0.5).bits);
    assert_eq!(StrengthRange::default(), StrengthRange::new(0, 200));
    assert_eq!(StrengthRange::new(300, 5).normalized(), StrengthRange::new(5, 200));
}

#[test]
fn channels_have_their_symbols() {
    assert_eq!(DglabChannel::A.label(), "A");
    assert_eq!(DglabChannel::B.pulse_symbol(), "B");
    assert_eq!(DglabChannel::B.strength_channel_id(), 2);
    assert_eq!(DglabChannel::default().index(), 0);
}

#[test]
fn levels_compare_like_numbers() {
    let values = [f32::NEG_INFINITY, -2.0, -0.0, 0.0, 1e-40, 0.3, 1.0, f32::INFINITY, f32::NAN];
    for a in values {
        for b in values {
            assert_eq!(level(a).below(level(b)), a < b);
            assert_eq!(level(a).at_most(level(b)), a <= b);
            assert_eq!(level(a) == level(b), a == b);
        }
        assert_eq!(level(a).not_a_number(), a.is_nan());
        let clamped = f32::from_bits(level(a).clamp_unit().bits);
        assert!(clamped == a.clamp(0.0, 1.0) || (clamped.is_nan() && a.is_nan()));
    }
    assert_eq!(level(f32::NAN).or_greater(level(0.5)).bits, level(0.5).bits);
    assert_eq!(level(0.5).or_greater(level(f32::NAN)).bits, level(0.5).bits);
    assert_eq!(level(0.5).or_greater(level(0.7)).bits, level(0.7).bits);
}
