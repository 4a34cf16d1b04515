use dglab_audio_link::level::Level;
use dglab_audio_link::signal::mapper::{
    aggregate_channel_strengths, compute_band_outputs, map_band_to_strength,
};
use dglab_audio_link::types::{BandRouting, DglabChannel, StrengthRange};

fn level(x: f32) -> Level {
    Level::from_bits(x.to_bits())
}

fn rise(value: f32, threshold: f32, range: StrengthRange) -> u16 {
    let range = range.normalized();
    let value = value.clamp(0.0, 1.0);
    let threshold = threshold.clamp(0.0, 1.0);
    let span = (range.max - range.min) as f32;
    let normalized = ((value - threshold) / (1.0 - threshold).max(f32::EPSILON)).clamp(0.0, 1.0);
    (span * normalized).round() as u16
}

fn map(value: f32, threshold: f32, range: StrengthRange) -> u16 {
    map_band_to_strength(level(value), level(threshold), range, rise(value, threshold, range))
}

fn outputs(
    values: [f32; 4],
    routing: [(bool, f32, DglabChannel); 4],
    ranges: [StrengthRange; 2],
) -> [Option<(DglabChannel, u16)>; 4] {
    let routes = routing.map(|(on, t, c)| BandRouting::new(on, level(t), c));
    let rises = [0, 1, 2, 3].map(|i| {
        let (_, t, c) = routing[i];
        rise(values[i], t, ranges[c.index()])
    });
    compute_band_outputs(values.map(level), routes, ranges, rises)
}

#[test]
fn returns_zero_when_below_threshold() {
    assert_eq!(map(0.3, 0.5, StrengthRange::new(20, 120)), 0);
}

#[test]
fn reaches_max_when_value_is_one() {
    assert_eq!(map(1.0, 0.4, StrengthRange::new(20, 120)), 120);
}

#[test]
fn disables_non_triggered_bands() {
    let values = [0.9, 0.2, 0.8, 0.7];
    let routing = [
        (true, 0.5, DglabChannel::A),
        (true, 0.3, DglabChannel::A),
        (false, 0.2, DglabChannel::B),
        (true, 0.6, DglabChannel::B),
    ];

    let outputs = outputs(
        values,
        routing,
        [StrengthRange::new(10, 50), StrengthRange::new(10, 50)],
    );
    assert!(outputs[0].is_some());
    assert!(outputs[1].is_none());
    assert!(outputs[2].is_none());
    assert!(outputs[3].is_some());
}

#[test]
fn maps_range_per_channel() {
    let values = [0.95, 0.0, 0.0, 0.95];
    let routing = [
        (true, 0.1, DglabChannel::A),
        (false, 0.1, DglabChannel::A),
        (false, 0.1, DglabChannel::B),
        (true, 0.1, DglabChannel::B),
    ];

    let outputs = outputs(
        values,
        routing,
        [StrengthRange::new(10, 20), StrengthRange::new(80, 100)],
    );
    let a = outputs[0].expect("a output");
    let b = outputs[3].expect("b output");
    assert!(a.1 <= 20);
    assert!(b.1 >= 80);
}

#[test]
fn aggregates_by_channel_with_max_strength() {
    let aggregated = aggregate_channel_strengths([
        Some((DglabChannel::A, 10)),
        Some((DglabChannel::A, 40)),
        Some((DglabChannel::B, 12)),
        Some((DglabChannel::B, 8)),
    ]);
    assert_eq!(aggregated, [40, 12]);
}

#[test]
fn mapping_has_exact_values() {
    assert_eq!(map(0.75, 0.5, StrengthRange::new(20, 120)), 70);
    assert_eq!(map(0.5, 0.5, StrengthRange::new(20, 120)), 0);
    assert_eq!(map(2.0, -1.0, StrengthRange::new(120, 20)), 120);
    assert_eq!(map(1.0, 0.0, StrengthRange::new(300, 0)), 200);
}

#[test]
fn a_rise_counts_up_to_the_span() {
    let range = StrengthRange::new(20, 120);
    assert_eq!(map_band_to_strength(level(0.9), level(0.5), range, 500), 120);
    assert_eq!(map_band_to_strength(level(0.9), level(0.5), range, 0), 20);
}

#[test]
fn values_that_are_no_numbers_follow_the_comparisons() {
    let range = StrengthRange::new(20, 120);
    assert_eq!(map_band_to_strength(level(f32::NAN), level(0.5), range, 0), 20);
    let nan = outputs(
        [f32::NAN, 0.0, 0.0, 0.0],
        [(true, 0.0, DglabChannel::A); 4],
        [range, range],
    );
    assert_eq!(nan, [None; 4]);
}

#[test]
fn silence_gathers_to_nothing() {
    assert_eq!(aggregate_channel_strengths([None; 4]), [0, 0]);
}

#[test]
fn order_and_the_other_channel_play_no_part() {
    let a = Some((DglabChannel::A, 30));
    let more = Some((DglabChannel::A, 70));
    let b = Some((DglabChannel::B, 50));
    for outputs in [[a, more, b, None], [None, b, more, a], [more, None, a, b]] {
        assert_eq!(aggregate_channel_strengths(outputs), [70, 50]);
    }
    assert_eq!(aggregate_channel_strengths([a, more, None, None]), [70, 0]);
    assert_eq!(aggregate_channel_strengths([Some((DglabChannel::A, 0)), b, b, b]), [0, 50]);
}

#[test]
fn strength_grows_with_the_level() {
    let range = StrengthRange::new(20, 120);
    let mut last = 0;
    for i in 0..=100u8 {
        let strength = map(f32::from(i) / 100.0, 0.4, range);
        assert!(strength >= last);
        last = strength;
    }
    assert_eq!(last, 120);
}
