use dglab_audio_link::audio::analyzer::BandAnalysisFrame;
use dglab_audio_link::dglab::protocol::build_pulse_message_from_items;
use dglab_audio_link::level::Level;
use dglab_audio_link::pipeline::envelope::{
    apply_band_envelope_step, approach_value, BandEnvelopeState, EnvelopeMoves,
};
use dglab_audio_link::pipeline::waveform::{
    build_pulse_items_for_strength, dominant_band, resolve_waveform_pattern, smooth_strength_step,
    wave_amplitude, wave_contrast, wave_share, RoundedWave, WaveformPatternSpec,
};
use dglab_audio_link::pipeline::worker::merge_bands_with_pending_peaks;
use dglab_audio_link::types::{
    AutoPulseMode, BandRouting, DglabChannel, WaveformPattern, WaveformPatternMode,
};

fn level(x: f32) -> Level {
    Level::from_bits(x.to_bits())
}

fn number(x: Level) -> f32 {
    f32::from_bits(x.bits)
}

fn rounded(
    strength: u16,
    mapping_max: u16,
    mode: WaveformPatternMode,
    pattern: WaveformPattern,
    contrast: f32,
) -> RoundedWave {
    let (shown, cap) = wave_share(strength, mapping_max);
    let contrast = number(wave_contrast(level(contrast)));
    let normalized = (shown as f32 / cap as f32).clamp(0.0, 1.0);
    let boosted = ((normalized - 0.5) * contrast + 0.5).clamp(0.0, 1.0);
    let wave = wave_amplitude(strength, (boosted * 100.0).round() as u8);
    let source = WaveformPatternSpec::for_pattern(WaveformPattern::Smooth);
    let target = WaveformPatternSpec::for_pattern(pattern);
    let morph = match mode {
        WaveformPatternMode::Fixed => 1.0,
        WaveformPatternMode::AutoMorph => normalized.clamp(0.2, 1.0),
    };
    let mut freq = [0_u8; 4];
    let mut amp = [0_u8; 4];
    for i in 0..4 {
        let f = source.freq[i] as f32 + (target.freq[i] as f32 - source.freq[i] as f32) * morph;
        freq[i] = f.round() as u8;
        let from = source.amp[i] as f32 / 100.0;
        let to = target.amp[i] as f32 / 100.0;
        amp[i] = (wave as f32 * (from + (to - from) * morph)).round() as u8;
    }
    RoundedWave { freq, amp }
}

fn items(
    strength: u16,
    mapping_max: u16,
    count: usize,
    mode: AutoPulseMode,
    pattern_mode: WaveformPatternMode,
    pattern: WaveformPattern,
    contrast: f32,
) -> Vec<String> {
    build_pulse_items_for_strength(
        strength,
        count,
        mode,
        pattern,
        rounded(strength, mapping_max, pattern_mode, pattern, contrast),
    )
}

#[test]
fn builds_strength_based_pulse_items() {
    let items = items(
        100,
        200,
        4,
        AutoPulseMode::ByStrength,
        WaveformPatternMode::Fixed,
        WaveformPattern::Smooth,
        1.0,
    );
    assert_eq!(
        items,
        vec![
            "0A0A0A0A32323232".to_owned(),
            "0A0A0A0A32323232".to_owned(),
            "0A0A0A0A32323232".to_owned(),
            "0A0A0A0A32323232".to_owned(),
        ]
    );
}

#[test]
fn builds_always_max_pulse_items() {
    let items = items(
        1,
        200,
        3,
        AutoPulseMode::AlwaysMax,
        WaveformPatternMode::Fixed,
        WaveformPattern::Smooth,
        1.0,
    );
    assert_eq!(
        items,
        vec![
            "0A0A0A0A64646464".to_owned(),
            "0A0A0A0A64646464".to_owned(),
            "0A0A0A0A64646464".to_owned(),
        ]
    );
}

#[test]
fn strength_based_pulse_never_contains_gap_pattern_when_strength_is_positive() {
    let items = items(
        1,
        200,
        1,
        AutoPulseMode::ByStrength,
        WaveformPatternMode::Fixed,
        WaveformPattern::Smooth,
        1.0,
    );
    assert_eq!(items[0], "0A0A0A0A01010101");
}

#[test]
fn strength_based_pulse_uses_valid_v3_ranges() {
    let zero = items(
        0,
        200,
        1,
        AutoPulseMode::ByStrength,
        WaveformPatternMode::Fixed,
        WaveformPattern::Smooth,
        1.0,
    );
    let max = items(
        200,
        200,
        1,
        AutoPulseMode::ByStrength,
        WaveformPatternMode::Fixed,
        WaveformPattern::Smooth,
        1.0,
    );
    assert_eq!(zero[0], "0A0A0A0A00000000");
    assert_eq!(max[0], "0A0A0A0A64646464");
}

#[test]
fn strength_based_pulse_reaches_max_at_mapping_cap() {
    let items = items(
        80,
        80,
        1,
        AutoPulseMode::ByStrength,
        WaveformPatternMode::Fixed,
        WaveformPattern::Smooth,
        1.0,
    );
    assert_eq!(items[0], "0A0A0A0A64646464");
}

#[test]
fn strength_based_pulse_clamps_to_mapping_cap() {
    let items = items(
        160,
        80,
        1,
        AutoPulseMode::ByStrength,
        WaveformPatternMode::Fixed,
        WaveformPattern::Smooth,
        1.0,
    );
    assert_eq!(items[0], "0A0A0A0A64646464");
}

#[test]
fn waveform_contrast_boosts_dynamic_range() {
    let linear = items(
        120,
        200,
        1,
        AutoPulseMode::ByStrength,
        WaveformPatternMode::Fixed,
        WaveformPattern::Smooth,
        1.0,
    );
    let boosted = items(
        120,
        200,
        1,
        AutoPulseMode::ByStrength,
        WaveformPatternMode::Fixed,
        WaveformPattern::Smooth,
        1.8,
    );
    assert_eq!(linear[0], "0A0A0A0A3C3C3C3C");
    assert_eq!(boosted[0], "0A0A0A0A44444444");
}

#[test]
fn fixed_punch_pattern_uses_non_flat_shape() {
    let items = items(
        200,
        200,
        1,
        AutoPulseMode::ByStrength,
        WaveformPatternMode::Fixed,
        WaveformPattern::Punch,
        1.0,
    );
    assert_eq!(items[0], "0A0C0E121964482A");
}

#[test]
fn auto_morph_resolves_punch_for_high_onset() {
    let analysis = BandAnalysisFrame {
        energy: [0.2, 0.2, 0.2, 0.2].map(level),
        onset: [0.1, 0.8, 0.2, 0.1].map(level),
    };
    let pattern = resolve_waveform_pattern(
        WaveformPatternMode::AutoMorph,
        WaveformPattern::Smooth,
        analysis,
    );
    assert_eq!(pattern, WaveformPattern::Punch);
}

#[test]
fn merges_pending_peaks_and_clears_cache() {
    let latest = [0.2, 0.4, 0.1, 0.3].map(level);
    let mut pending = [0.5, 0.1, 0.7, 0.0].map(level);
    let merged = merge_bands_with_pending_peaks(latest, &mut pending);
    assert_eq!(merged.map(number), [0.5, 0.4, 0.7, 0.3]);
    assert_eq!(pending.map(number), [0.0, 0.0, 0.0, 0.0]);
}

fn envelope_step(
    state: &mut BandEnvelopeState,
    target: f32,
    routing: BandRouting,
    dt_ms: f32,
) -> f32 {
    let goal = target.clamp(0.0, 1.0);
    let dt_ms = dt_ms.max(0.0);
    let value = number(state.value);
    let hold = number(state.hold_remaining_ms);
    let way = |dt: f32, duration: u16| {
        let alpha = (dt / duration as f32).clamp(0.0, 1.0);
        approach_value(level(goal), duration, level(value + (goal - value) * alpha))
    };
    let consumed = if hold > 0.0 { dt_ms.min(hold) } else { 0.0 };
    let moves = EnvelopeMoves {
        risen: way(dt_ms, routing.attack_ms),
        fallen: way(dt_ms - consumed, routing.release_ms),
        full_hold: level(routing.hold_ms as f32),
        hold_left: level(hold - consumed),
        time_left: level(dt_ms - consumed),
    };
    number(apply_band_envelope_step(state, level(target), moves))
}

#[test]
fn attack_envelope_rises_gradually() {
    let mut state = BandEnvelopeState::default();
    let routing = BandRouting {
        attack_ms: 100,
        hold_ms: 140,
        release_ms: 260,
        ..BandRouting::new(true, level(0.5), DglabChannel::A)
    };
    let value = envelope_step(&mut state, 1.0, routing, 25.0);
    assert!((value - 0.25).abs() < 0.001);
}

#[test]
fn hold_keeps_peak_before_release() {
    let mut state = BandEnvelopeState {
        value: level(1.0),
        hold_remaining_ms: level(100.0),
    };
    let routing = BandRouting {
        attack_ms: 60,
        hold_ms: 100,
        release_ms: 200,
        ..BandRouting::new(true, level(0.5), DglabChannel::A)
    };
    let value = envelope_step(&mut state, 0.0, routing, 50.0);
    assert_eq!(value, 1.0);
    assert_eq!(number(state.hold_remaining_ms), 50.0);
}

#[test]
fn release_envelope_falls_after_hold_expires() {
    let mut state = BandEnvelopeState {
        value: level(1.0),
        hold_remaining_ms: level(0.0),
    };
    let routing = BandRouting {
        attack_ms: 60,
        hold_ms: 100,
        release_ms: 200,
        ..BandRouting::new(true, level(0.5), DglabChannel::A)
    };
    let value = envelope_step(&mut state, 0.0, routing, 50.0);
    assert!((value - 0.75).abs() < 0.001);
}

fn max_step(smoothness: f32) -> u16 {
    let response = (1.0 - smoothness.clamp(0.0, 1.0)).clamp(0.0, 1.0);
    (response.powf(2.2) * 200.0).round() as u16
}

fn smooth(current: u16, target: u16, smoothness: f32) -> u16 {
    smooth_strength_step(current, target, level(smoothness), max_step(smoothness))
}

#[test]
fn smooth_step_uses_target_when_smoothing_is_zero() {
    assert_eq!(smooth(20, 100, 0.0), 100);
}

#[test]
fn smooth_step_moves_with_rate_limit_and_can_reach_target_exactly() {
    assert_eq!(smooth(20, 100, 0.70), 34);
    assert_eq!(smooth(92, 100, 0.70), 100);
    assert_eq!(smooth(100, 20, 0.70), 86);
}

#[test]
fn smooth_step_with_max_smoothing_moves_by_one_step() {
    assert_eq!(smooth(20, 100, 1.0), 21);
    assert_eq!(smooth(100, 20, 1.0), 99);
}

#[test]
fn smoothing_ends_at_the_target_and_stays_there() {
    let mut strength = 200;
    for _ in 0..200 {
        strength = smooth(strength, 3, 1.0);
    }
    assert_eq!(strength, 3);
    assert_eq!(smooth(3, 3, 1.0), 3);
    assert_eq!(smooth_strength_step(0, 65535, level(1.0), 60000), 200);
    assert_eq!(smooth_strength_step(65535, 0, level(1.0), 60000), 65335);
}

#[test]
fn patterns_follow_the_strongest_band() {
    let expect = [
        ([0.9, 0.2, 0.2, 0.2], WaveformPattern::Smooth),
        ([0.1, 0.8, 0.2, 0.2], WaveformPattern::Tide),
        ([0.1, 0.2, 0.7, 0.2], WaveformPattern::Ripple),
        ([0.1, 0.2, 0.2, 0.3], WaveformPattern::Shimmer),
    ];
    for (energy, pattern) in expect {
        let analysis = BandAnalysisFrame {
            energy: energy.map(level),
            onset: [0.67; 4].map(level),
        };
        assert_eq!(
            resolve_waveform_pattern(
                WaveformPatternMode::AutoMorph,
                WaveformPattern::Punch,
                analysis
            ),
            pattern
        );
        assert_eq!(
            resolve_waveform_pattern(WaveformPatternMode::Fixed, WaveformPattern::Tide, analysis),
            WaveformPattern::Tide
        );
    }
    assert_eq!(dominant_band([0.5; 4].map(level)), 0);
    let edge = BandAnalysisFrame {
        energy: [0.0; 4].map(level),
        onset: [0.0, 0.0, 0.0, 0.68].map(level),
    };
    assert_eq!(
        resolve_waveform_pattern(WaveformPatternMode::AutoMorph, WaveformPattern::Tide, edge),
        WaveformPattern::Punch
    );
}

#[test]
fn full_output_uses_the_pattern_itself() {
    let rounded = RoundedWave { freq: [0; 4], amp: [0; 4] };
    let item = |pattern| {
        build_pulse_items_for_strength(1, 0, AutoPulseMode::AlwaysMax, pattern, rounded)
    };
    assert_eq!(item(WaveformPattern::Punch), vec!["0A0C0E121964482A".to_owned()]);
    assert_eq!(item(WaveformPattern::Tide), vec!["0A0C0F1216304E64".to_owned()]);
    assert_eq!(item(WaveformPattern::Ripple), vec!["0A0C10142A486444".to_owned()]);
    assert_eq!(item(WaveformPattern::Shimmer), vec!["0E12161A344E603E".to_owned()]);
}

#[test]
fn full_output_leaves_no_gap_at_any_strength() {
    let quiet = RoundedWave { freq: [0; 4], amp: [0; 4] };
    let loud = RoundedWave { freq: [200; 4], amp: [100; 4] };
    for (strength, wave) in [(0, quiet), (0, loud), (200, quiet)] {
        let items = build_pulse_items_for_strength(
            strength,
            2,
            AutoPulseMode::AlwaysMax,
            WaveformPattern::Punch,
            wave,
        );
        assert_eq!(items, vec!["0A0C0E121964482A".to_owned(); 2]);
    }
}

#[test]
fn items_stay_in_the_device_ranges_and_make_a_message() {
    let wild = RoundedWave { freq: [0, 9, 241, 255], amp: [0, 101, 255, 1] };
    let items = build_pulse_items_for_strength(
        7,
        100,
        AutoPulseMode::ByStrength,
        WaveformPattern::Smooth,
        wild,
    );
    assert_eq!(items.len(), 100);
    assert_eq!(items[99], "0A0AF0F001646401");
    assert!(build_pulse_message_from_items(DglabChannel::A, &items).is_ok());
}

#[test]
fn auto_morph_starts_from_the_smooth_shape() {
    let low = items(
        1,
        200,
        1,
        AutoPulseMode::ByStrength,
        WaveformPatternMode::AutoMorph,
        WaveformPattern::Shimmer,
        4.0,
    );
    assert_eq!(low[0], "0B0C0C0D01010101");
}

#[test]
fn a_steady_level_keeps_its_hold_and_silence_is_cut_off() {
    let mut state = BandEnvelopeState { value: level(0.5), hold_remaining_ms: level(1.0) };
    let routing = BandRouting::new(true, level(0.5), DglabChannel::A);
    assert_eq!(envelope_step(&mut state, 0.5, routing, 10.0), 0.5);
    assert_eq!(number(state.hold_remaining_ms), 140.0);
    let mut state = BandEnvelopeState { value: level(0.00009), hold_remaining_ms: level(0.0) };
    assert_eq!(envelope_step(&mut state, 0.0, routing, 0.0), 0.0);
    let quick = BandRouting { attack_ms: 0, release_ms: 0, ..routing };
    let mut state = BandEnvelopeState::default();
    assert_eq!(envelope_step(&mut state, 2.0, quick, 1.0), 1.0);
}
