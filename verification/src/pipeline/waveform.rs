//! Waveform patterns, the pulse items made from them and the smoothing of
//! strengths.

use vstd::prelude::*;

use crate::audio::analyzer::BandAnalysisFrame;
use crate::dglab::protocol;
use crate::level::{Level, ONE, FOUR, ZERO};
use crate::text;
use crate::text::push_hex_byte;
use crate::types::{
    lesser, AutoPulseMode, DglabChannel, WaveformPattern, WaveformPatternMode, BAND_COUNT,
    MAX_STRENGTH,
};

verus! {

/// The greatest amplitude of a wave.
pub const MAX_WAVE_STRENGTH: u8 = 100;

/// The least and the greatest frequency byte of a pulse item.
pub const MIN_WAVE_FREQUENCY: u8 = 10;

pub const MAX_WAVE_FREQUENCY: u8 = 240;

/// The onset from which the pattern turns to `Punch`: 0.68.
pub const PUNCH_ONSET: u32 = 0x3f2e_147b;

/// The frequency bytes of a pattern and its amplitudes in percent.
#[derive(Debug, Clone, Copy)]
pub struct WaveformPatternSpec {
    pub freq: [u8; 4],
    pub amp: [u8; 4],
}

pub open spec fn pattern_freq(pattern: WaveformPattern) -> Seq<u8> {
    match pattern {
        WaveformPattern::Smooth => seq![10u8, 10, 10, 10],
        WaveformPattern::Punch => seq![10u8, 12, 14, 18],
        WaveformPattern::Tide => seq![10u8, 12, 15, 18],
        WaveformPattern::Ripple => seq![10u8, 12, 16, 20],
        WaveformPattern::Shimmer => seq![14u8, 18, 22, 26],
    }
}

pub open spec fn pattern_amp(pattern: WaveformPattern) -> Seq<u8> {
    match pattern {
        WaveformPattern::Smooth => seq![100u8, 100, 100, 100],
        WaveformPattern::Punch => seq![25u8, 100, 72, 42],
        WaveformPattern::Tide => seq![22u8, 48, 78, 100],
        WaveformPattern::Ripple => seq![42u8, 72, 100, 68],
        WaveformPattern::Shimmer => seq![52u8, 78, 96, 62],
    }
}

impl WaveformPatternSpec {
    pub fn for_pattern(pattern: WaveformPattern) -> (r: WaveformPatternSpec)
        ensures
            r.freq@ == pattern_freq(pattern),
            r.amp@ == pattern_amp(pattern),
    {
        match pattern {
            WaveformPattern::Smooth => WaveformPatternSpec {
                freq: [10, 10, 10, 10],
                amp: [100, 100, 100, 100],
            },
            WaveformPattern::Punch => WaveformPatternSpec {
                freq: [10, 12, 14, 18],
                amp: [25, 100, 72, 42],
            },
            WaveformPattern::Tide => WaveformPatternSpec {
                freq: [10, 12, 15, 18],
                amp: [22, 48, 78, 100],
            },
            WaveformPattern::Ripple => WaveformPatternSpec {
                freq: [10, 12, 16, 20],
                amp: [42, 72, 100, 68],
            },
            WaveformPattern::Shimmer => WaveformPatternSpec {
                freq: [14, 18, 22, 26],
                amp: [52, 78, 96, 62],
            },
        }
    }
}

/// The band whose value is above that of every band before it, the last such.
pub open spec fn dominant(values: Seq<Level>) -> int
    decreases values.len(),
{
    if values.len() <= 1 {
        0
    } else {
        let best = dominant(values.drop_last());
        if values[best].lt(values.last()) {
            values.len() - 1
        } else {
            best
        }
    }
}

pub fn dominant_band(values: [Level; BAND_COUNT]) -> (r: usize)
    ensures
        r == dominant(values@),
        r < BAND_COUNT,
{
    let mut best: usize = 0;
    let mut i: usize = 1;
    while i < BAND_COUNT
        invariant
            1 <= i <= BAND_COUNT,
            values@.len() == BAND_COUNT,
            best < i,
            best == dominant(values@.take(i as int)),
        decreases BAND_COUNT - i,
    {
        let ghost t = values@.take(i as int + 1);
        assert(t.drop_last() =~= values@.take(i as int));
        if values[best].below(values[i]) {
            best = i;
        }
        i += 1;
    }
    assert(values@.take(i as int) =~= values@);
    best
}

/// The greatest of the levels and zero.
pub open spec fn peak(values: Seq<Level>) -> Level
    decreases values.len(),
{
    if values.len() == 0 {
        Level { bits: ZERO }
    } else {
        peak(values.drop_last()).greater(values.last())
    }
}

/// The pattern for a frame: `Punch` on a strong onset, else one by the band
/// with the most energy.
pub open spec fn morphed_pattern(energy: Seq<Level>, onset: Seq<Level>) -> WaveformPattern {
    if (Level { bits: PUNCH_ONSET }).le(peak(onset)) {
        WaveformPattern::Punch
    } else if dominant(energy) == 0 {
        WaveformPattern::Smooth
    } else if dominant(energy) == 1 {
        WaveformPattern::Tide
    } else if dominant(energy) == 2 {
        WaveformPattern::Ripple
    } else {
        WaveformPattern::Shimmer
    }
}

pub open spec fn resolved_pattern(
    mode: WaveformPatternMode,
    fixed: WaveformPattern,
    energy: Seq<Level>,
    onset: Seq<Level>,
) -> WaveformPattern {
    match mode {
        WaveformPatternMode::Fixed => fixed,
        WaveformPatternMode::AutoMorph => morphed_pattern(energy, onset),
    }
}

fn peak_level(values: [Level; BAND_COUNT]) -> (r: Level)
    ensures
        r == peak(values@),
{
    let mut best = Level::from_bits(ZERO);
    let mut i: usize = 0;
    while i < BAND_COUNT
        invariant
            i <= BAND_COUNT,
            values@.len() == BAND_COUNT,
            best == peak(values@.take(i as int)),
        decreases BAND_COUNT - i,
    {
        assert(values@.take(i as int + 1).drop_last() =~= values@.take(i as int));
        best = best.or_greater(values[i]);
        i += 1;
    }
    assert(values@.take(i as int) =~= values@);
    best
}

/// The pattern to use for a frame.
pub fn resolve_waveform_pattern(
    pattern_mode: WaveformPatternMode,
    fixed_pattern: WaveformPattern,
    analysis: BandAnalysisFrame,
) -> (r: WaveformPattern)
    ensures
        r == resolved_pattern(pattern_mode, fixed_pattern, analysis.energy@, analysis.onset@),
{
    match pattern_mode {
        WaveformPatternMode::Fixed => fixed_pattern,
        WaveformPatternMode::AutoMorph => {
            if Level::from_bits(PUNCH_ONSET).at_most(peak_level(analysis.onset)) {
                return WaveformPattern::Punch;
            }
            let band: usize = dominant_band(analysis.energy);
            if band == 0 {
                WaveformPattern::Smooth
            } else if band == 1 {
                WaveformPattern::Tide
            } else if band == 2 {
                WaveformPattern::Ripple
            } else {
                WaveformPattern::Shimmer
            }
        },
    }
}

/// `value` moved into the range from `lo` to `hi`.
pub open spec fn within(value: u8, lo: u8, hi: u8) -> u8 {
    if value < lo {
        lo
    } else if value > hi {
        hi
    } else {
        value
    }
}

fn keep_within(value: u8, lo: u8, hi: u8) -> (r: u8)
    ensures
        r == within(value, lo, hi),
{
    if value < lo {
        lo
    } else if value > hi {
        hi
    } else {
        value
    }
}

/// The strength that counts as the full wave: from 1 to the maximum strength.
pub open spec fn wave_cap(mapping_max_strength: u16) -> u16 {
    if mapping_max_strength < 1 {
        1
    } else if mapping_max_strength > MAX_STRENGTH {
        MAX_STRENGTH
    } else {
        mapping_max_strength
    }
}

/// The share of the full wave that a strength stands for, as numerator and
/// denominator.
pub fn wave_share(strength: u16, mapping_max_strength: u16) -> (r: (u16, u16))
    ensures
        r.1 == wave_cap(mapping_max_strength),
        r.0 == crate::types::min_u16(strength, r.1),
        0 < r.1 <= MAX_STRENGTH,
        r.0 <= r.1,
{
    let cap: u16 = if mapping_max_strength < 1 {
        1
    } else {
        lesser(mapping_max_strength, MAX_STRENGTH)
    };
    (lesser(strength, cap), cap)
}

/// The contrast in its range from one to four.
pub fn wave_contrast(contrast: Level) -> (r: Level)
    ensures
        r == contrast.clamped(Level { bits: ONE }, Level { bits: FOUR }),
{
    contrast.clamp_to(Level::from_bits(ONE), Level::from_bits(FOUR))
}

/// An amplitude from its rounded value: none without strength, else from 1 to
/// the greatest.
pub open spec fn amplitude(strength: u16, rounded: u8) -> u8 {
    if strength == 0 {
        0
    } else {
        within(rounded, 1, MAX_WAVE_STRENGTH)
    }
}

pub fn wave_amplitude(strength: u16, rounded: u8) -> (r: u8)
    ensures
        r == amplitude(strength, rounded),
{
    if strength == 0 {
        0
    } else {
        keep_within(rounded, 1, MAX_WAVE_STRENGTH)
    }
}

/// The rounded frequencies and amplitudes of a wave that follows the strength.
#[derive(Debug, Clone, Copy)]
pub struct RoundedWave {
    pub freq: [u8; 4],
    pub amp: [u8; 4],
}

/// The frequency bytes of an item.
pub open spec fn item_freq(mode: AutoPulseMode, pattern: WaveformPattern, rounded: Seq<u8>) -> Seq<u8> {
    match mode {
        AutoPulseMode::ByStrength => Seq::new(
            4,
            |i: int| within(rounded[i], MIN_WAVE_FREQUENCY, MAX_WAVE_FREQUENCY),
        ),
        AutoPulseMode::AlwaysMax => pattern_freq(pattern),
    }
}

/// The amplitude bytes of an item.
pub open spec fn item_amp(
    mode: AutoPulseMode,
    pattern: WaveformPattern,
    strength: u16,
    rounded: Seq<u8>,
) -> Seq<u8> {
    match mode {
        AutoPulseMode::ByStrength => Seq::new(4, |i: int| amplitude(strength, rounded[i])),
        AutoPulseMode::AlwaysMax => pattern_amp(pattern),
    }
}

/// The hexadecimal form of bytes.
pub open spec fn hex_text(bytes: Seq<u8>) -> Seq<char>
    decreases bytes.len(),
{
    if bytes.len() == 0 {
        seq![]
    } else {
        hex_text(bytes.drop_last()) + text::hex_byte(bytes.last())
    }
}

fn push_hex(r: &mut String, bytes: [u8; 4])
    ensures
        final(r)@ == old(r)@ + hex_text(bytes@),
{
    let ghost before = r@;
    let mut i: usize = 0;
    assert(bytes@.take(0) =~= Seq::<u8>::empty());
    assert(before + hex_text(bytes@.take(0)) =~= before);
    while i < 4
        invariant
            i <= 4,
            bytes@.len() == 4,
            r@ == before + hex_text(bytes@.take(i as int)),
        decreases 4 - i,
    {
        let ghost t = bytes@.take(i as int + 1);
        assert(t.drop_last() =~= bytes@.take(i as int));
        push_hex_byte(r, bytes[i]);
        assert(r@ =~= before + hex_text(t));
        i += 1;
    }
    assert(bytes@.take(4) =~= bytes@);
}

/// A pulse item: four frequency bytes, then four amplitude bytes.
pub open spec fn item_text(freq: Seq<u8>, amp: Seq<u8>) -> Seq<char> {
    hex_text(freq) + hex_text(amp)
}

fn pulse_item(freq: [u8; 4], amp: [u8; 4]) -> (r: String)
    ensures
        r@ == item_text(freq@, amp@),
{
    let mut r = String::new();
    push_hex(&mut r, freq);
    push_hex(&mut r, amp);
    assert(r@ =~= item_text(freq@, amp@));
    r
}

/// The item for a strength.
pub open spec fn strength_item(
    strength: u16,
    mode: AutoPulseMode,
    pattern: WaveformPattern,
    rounded: RoundedWave,
) -> Seq<char> {
    item_text(
        item_freq(mode, pattern, rounded.freq@),
        item_amp(mode, pattern, strength, rounded.amp@),
    )
}

/// The items of a pulse message: one item, `count` times and at least once.
/// `rounded` is the wave for the strength; it plays no part at full output.
pub fn build_pulse_items_for_strength(
    strength: u16,
    count: usize,
    mode: AutoPulseMode,
    pattern: WaveformPattern,
    rounded: RoundedWave,
) -> (r: Vec<String>)
    ensures
        r@.len() == if count == 0 {
            1
        } else {
            count as int
        },
        forall|i: int|
            0 <= i < r@.len() ==> (#[trigger] r@[i])@ == strength_item(
                strength,
                mode,
                pattern,
                rounded,
            ),
{
    let item = match mode {
        AutoPulseMode::ByStrength => {
            let freq = [
                keep_within(rounded.freq[0], MIN_WAVE_FREQUENCY, MAX_WAVE_FREQUENCY),
                keep_within(rounded.freq[1], MIN_WAVE_FREQUENCY, MAX_WAVE_FREQUENCY),
                keep_within(rounded.freq[2], MIN_WAVE_FREQUENCY, MAX_WAVE_FREQUENCY),
                keep_within(rounded.freq[3], MIN_WAVE_FREQUENCY, MAX_WAVE_FREQUENCY),
            ];
            let amp = [
                wave_amplitude(strength, rounded.amp[0]),
                wave_amplitude(strength, rounded.amp[1]),
                wave_amplitude(strength, rounded.amp[2]),
                wave_amplitude(strength, rounded.amp[3]),
            ];
            assert(freq@ =~= item_freq(mode, pattern, rounded.freq@));
            assert(amp@ =~= item_amp(mode, pattern, strength, rounded.amp@));
            pulse_item(freq, amp)
        },
        AutoPulseMode::AlwaysMax => {
            let shape = WaveformPatternSpec::for_pattern(pattern);
            pulse_item(shape.freq, shape.amp)
        },
    };
    let count: usize = if count == 0 {
        1
    } else {
        count
    };
    let mut r: Vec<String> = Vec::new();
    while r.len() < count
        invariant
            r@.len() <= count,
            item@ == strength_item(strength, mode, pattern, rounded),
            forall|i: int| 0 <= i < r@.len() ==> (#[trigger] r@[i])@ == item@,
        decreases count - r@.len(),
    {
        r.push(item.clone());
    }
    r
}

/// The next strength on the way to the target: straight there without
/// smoothing, else by at most `max_step`, from 1 to the maximum strength.
pub open spec fn smoothed_step(current: u16, target: u16, smoothness: Level, max_step: u16) -> u16 {
    let step = wave_cap(max_step);
    if smoothness.unit().le(Level { bits: ZERO }) {
        target
    } else if current < target {
        if current + step < target {
            (current + step) as u16
        } else {
            target
        }
    } else if current - step > target {
        (current - step) as u16
    } else {
        target
    }
}

/// Moves a strength towards its target. `max_step` is the rounded step that the
/// smoothness allows.
pub fn smooth_strength_step(current: u16, target: u16, smoothness: Level, max_step: u16) -> (r: u16)
    ensures
        r == smoothed_step(current, target, smoothness, max_step),
{
    if smoothness.clamp_unit().at_most(Level::from_bits(ZERO)) {
        return target;
    }
    let step: u16 = if max_step < 1 {
        1
    } else {
        lesser(max_step, MAX_STRENGTH)
    };
    if current < target {
        lesser(current.saturating_add(step), target)
    } else if current > target {
        let next: u16 = current.saturating_sub(step);
        if next > target {
            next
        } else {
            target
        }
    } else {
        current
    }
}

/// Every item keeps to the ranges of the device: frequencies from 10 to 240,
/// amplitudes up to 100. With a positive strength, and at full output with any,
/// no amplitude is zero; a strength of zero that the items follow gives no
/// amplitude at all.
pub proof fn law_items_keep_to_device_ranges(
    strength: u16,
    mode: AutoPulseMode,
    pattern: WaveformPattern,
    rounded: RoundedWave,
    i: int,
)
    requires
        0 <= i < 4,
    ensures
        item_freq(mode, pattern, rounded.freq@).len() == 4,
        item_amp(mode, pattern, strength, rounded.amp@).len() == 4,
        MIN_WAVE_FREQUENCY <= item_freq(mode, pattern, rounded.freq@)[i] <= MAX_WAVE_FREQUENCY,
        item_amp(mode, pattern, strength, rounded.amp@)[i] <= MAX_WAVE_STRENGTH,
        strength > 0 || mode == AutoPulseMode::AlwaysMax ==> item_amp(
            mode,
            pattern,
            strength,
            rounded.amp@,
        )[i] > 0,
        strength == 0 && mode == AutoPulseMode::ByStrength ==> item_amp(
            mode,
            pattern,
            strength,
            rounded.amp@,
        )[i] == 0,
{
}

proof fn lemma_hex_text(bytes: Seq<u8>)
    ensures
        hex_text(bytes).len() == 2 * bytes.len(),
        text::all_hex(hex_text(bytes)),
        text::upper(hex_text(bytes)) == hex_text(bytes),
    decreases bytes.len(),
{
    let s = hex_text(bytes);
    if bytes.len() > 0 {
        let t = hex_text(bytes.drop_last());
        lemma_hex_text(bytes.drop_last());
        assert forall|i: int| 0 <= i < s.len() implies text::is_hex(#[trigger] s[i])
            && text::upper_char(s[i]) == s[i] by {
            if i < t.len() {
                assert(s[i] == t[i]);
                assert(text::upper(t)[i] == text::upper_char(t[i]));
            } else {
                assert(s[i] == text::hex_byte(bytes.last())[i - t.len()]);
            }
        }
    }
    assert(text::upper(s) =~= s);
}

/// At full output the item depends on the pattern alone: neither the strength nor
/// the wave that follows it plays a part.
pub proof fn law_full_output_follows_the_pattern(
    strength: u16,
    other_strength: u16,
    pattern: WaveformPattern,
    rounded: RoundedWave,
    other_rounded: RoundedWave,
)
    ensures
        strength_item(strength, AutoPulseMode::AlwaysMax, pattern, rounded) == strength_item(
            other_strength,
            AutoPulseMode::AlwaysMax,
            pattern,
            other_rounded,
        ),
{
}

/// An upper-case hexadecimal digit.
pub open spec fn is_upper_hex(c: char) -> bool {
    ('0' <= c <= '9') || ('A' <= c <= 'F')
}

proof fn lemma_hex_bytes(bytes: Seq<u8>, i: int)
    requires
        0 <= i < bytes.len(),
    ensures
        hex_text(bytes).len() == 2 * bytes.len(),
        hex_text(bytes).subrange(2 * i, 2 * i + 2) == text::hex_byte(bytes[i]),
        is_upper_hex(hex_text(bytes)[2 * i]),
        is_upper_hex(hex_text(bytes)[2 * i + 1]),
    decreases bytes.len(),
{
    let s = hex_text(bytes);
    let t = hex_text(bytes.drop_last());
    lemma_hex_text(bytes);
    lemma_hex_text(bytes.drop_last());
    if i < bytes.len() - 1 {
        lemma_hex_bytes(bytes.drop_last(), i);
        assert(s[2 * i] == t[2 * i] && s[2 * i + 1] == t[2 * i + 1]);
        assert(s.subrange(2 * i, 2 * i + 2) =~= t.subrange(2 * i, 2 * i + 2));
    } else {
        assert(s.subrange(2 * i, 2 * i + 2) =~= text::hex_byte(bytes[i]));
    }
}

/// An item is sixteen upper-case hexadecimal digits, which spell four frequency
/// bytes and then four amplitude bytes.
pub proof fn law_item_spells_its_bytes(
    strength: u16,
    mode: AutoPulseMode,
    pattern: WaveformPattern,
    rounded: RoundedWave,
)
    ensures
        ({
            let item = strength_item(strength, mode, pattern, rounded);
            let freq = item_freq(mode, pattern, rounded.freq@);
            let amp = item_amp(mode, pattern, strength, rounded.amp@);
            &&& item.len() == 16
            &&& forall|k: int| 0 <= k < 16 ==> is_upper_hex(#[trigger] item[k])
            &&& forall|i: int|
                0 <= i < 4 ==> item.subrange(2 * i, 2 * i + 2) == text::hex_byte(#[trigger] freq[i])
            &&& forall|i: int|
                0 <= i < 4 ==> item.subrange(8 + 2 * i, 10 + 2 * i) == text::hex_byte(
                    #[trigger] amp[i],
                )
        }),
{
    let item = strength_item(strength, mode, pattern, rounded);
    let freq = item_freq(mode, pattern, rounded.freq@);
    let amp = item_amp(mode, pattern, strength, rounded.amp@);
    lemma_hex_text(freq);
    lemma_hex_text(amp);
    assert forall|i: int| 0 <= i < 4 implies item.subrange(2 * i, 2 * i + 2) == text::hex_byte(
        #[trigger] freq[i],
    ) by {
        lemma_hex_bytes(freq, i);
        assert(item.subrange(2 * i, 2 * i + 2) =~= hex_text(freq).subrange(2 * i, 2 * i + 2));
    }
    assert forall|i: int| 0 <= i < 4 implies item.subrange(8 + 2 * i, 10 + 2 * i)
        == text::hex_byte(#[trigger] amp[i]) by {
        lemma_hex_bytes(amp, i);
        assert(item.subrange(8 + 2 * i, 10 + 2 * i) =~= hex_text(amp).subrange(2 * i, 2 * i + 2));
    }
    assert forall|k: int| 0 <= k < 16 implies is_upper_hex(#[trigger] item[k]) by {
        if k < 8 {
            lemma_hex_bytes(freq, k / 2);
            assert(item[k] == hex_text(freq)[k]);
        } else {
            lemma_hex_bytes(amp, (k - 8) / 2);
            assert(item[k] == hex_text(amp)[k - 8]);
        }
    }
}

/// The items of a wave, up to a hundred of them, always make a pulse message,
/// which carries them as they are.
pub proof fn law_items_make_a_message(
    channel: DglabChannel,
    strength: u16,
    mode: AutoPulseMode,
    pattern: WaveformPattern,
    rounded: RoundedWave,
    items: Seq<Seq<char>>,
)
    requires
        1 <= items.len() <= protocol::MAX_PULSE_ITEMS,
        forall|i: int|
            0 <= i < items.len() ==> #[trigger] items[i] == strength_item(
                strength,
                mode,
                pattern,
                rounded,
            ),
    ensures
        protocol::pulse_outcome(channel, items) == Ok::<Seq<char>, Seq<char>>(
            "pulse-"@ + channel.name() + ":"@ + crate::dglab::json::json_list(items),
        ),
{
    let freq = item_freq(mode, pattern, rounded.freq@);
    let amp = item_amp(mode, pattern, strength, rounded.amp@);
    let item = strength_item(strength, mode, pattern, rounded);
    lemma_hex_text(freq);
    lemma_hex_text(amp);
    assert(item.len() == 16);
    assert forall|i: int| 0 <= i < 16 implies text::is_hex(#[trigger] item[i])
        && text::upper_char(item[i]) == item[i] by {
        if i < 8 {
            assert(item[i] == hex_text(freq)[i]);
            assert(text::upper(hex_text(freq))[i] == text::upper_char(hex_text(freq)[i]));
        } else {
            assert(item[i] == hex_text(amp)[i - 8]);
            assert(text::upper(hex_text(amp))[i - 8] == text::upper_char(hex_text(amp)[i - 8]));
        }
    }
    assert(text::is_hex(item[0]) && text::is_hex(item[15]));
    assert(text::trimmed(item) == item);
    assert(text::upper(item) =~= item);
    assert(protocol::pulse_item_ok(item));
    assert forall|i: int| 0 <= i < items.len() implies protocol::pulse_item_ok(
        #[trigger] items[i],
    ) by {}
    protocol::law_pulse_message_when(channel, items);
    let sent = Seq::new(items.len(), |i: int| protocol::pulse_item_sent(items[i]));
    assert(sent =~= items);
}

/// Smoothing never goes past the target nor away from it.
pub proof fn law_smoothing_stays_between(
    current: u16,
    target: u16,
    smoothness: Level,
    max_step: u16,
)
    ensures
        current <= target ==> current <= smoothed_step(current, target, smoothness, max_step)
            <= target,
        current >= target ==> target <= smoothed_step(current, target, smoothness, max_step)
            <= current,
{
}

/// The strength after `n` steps towards a target that stays.
pub open spec fn after_steps(
    current: u16,
    target: u16,
    smoothness: Level,
    max_step: u16,
    n: nat,
) -> u16
    decreases n,
{
    if n == 0 {
        current
    } else {
        smoothed_step(
            after_steps(current, target, smoothness, max_step, (n - 1) as nat),
            target,
            smoothness,
            max_step,
        )
    }
}

pub open spec fn distance(a: u16, b: u16) -> nat {
    if a <= b {
        (b - a) as nat
    } else {
        (a - b) as nat
    }
}

/// A target that stays is reached exactly, at the latest after as many steps as
/// it is away.
pub proof fn law_smoothing_reaches_the_target(
    current: u16,
    target: u16,
    smoothness: Level,
    max_step: u16,
    n: nat,
)
    ensures
        distance(after_steps(current, target, smoothness, max_step, n), target) <= if n >= distance(
            current,
            target,
        ) {
            0
        } else {
            distance(current, target) - n
        },
        n >= distance(current, target) ==> after_steps(current, target, smoothness, max_step, n)
            == target,
    decreases n,
{
    if n > 0 {
        law_smoothing_reaches_the_target(current, target, smoothness, max_step, (n - 1) as nat);
    }
}

/// Where all levels are numbers, no band is above the dominant one, and every
/// band before it is below it.
pub proof fn law_dominant_band_is_the_first_loudest(values: Seq<Level>)
    requires
        values.len() > 0,
        forall|i: int| 0 <= i < values.len() ==> !(#[trigger] values[i]).is_nan(),
    ensures
        0 <= dominant(values) < values.len(),
        forall|i: int| 0 <= i < values.len() ==> (#[trigger] values[i]).le(values[dominant(values)]),
        forall|i: int| 0 <= i < dominant(values) ==> (#[trigger] values[i]).lt(values[dominant(values)]),
    decreases values.len(),
{
    if values.len() > 1 {
        let t = values.drop_last();
        assert forall|i: int| 0 <= i < t.len() implies !(#[trigger] t[i]).is_nan() by {
            assert(t[i] == values[i]);
        }
        law_dominant_band_is_the_first_loudest(t);
        let best = dominant(t);
        let d = dominant(values);
        let last = values[values.len() - 1];
        assert forall|i: int| 0 <= i < values.len() implies (#[trigger] values[i]).le(values[d]) by {
            if i < t.len() {
                assert(t[i] == values[i]);
                assert(t[i].le(t[best]));
            }
        }
        assert forall|i: int| 0 <= i < d implies (#[trigger] values[i]).lt(values[d]) by {
            assert(t[i] == values[i]);
            assert(t[i].le(t[best]));
        }
    }
}

proof fn lemma_peak(values: Seq<Level>)
    requires
        forall|i: int| 0 <= i < values.len() ==> !(#[trigger] values[i]).is_nan(),
    ensures
        !peak(values).is_nan(),
        forall|i: int| 0 <= i < values.len() ==> (#[trigger] values[i]).le(peak(values)),
        peak(values) == (Level { bits: 0 }) || values.contains(peak(values)),
    decreases values.len(),
{
    if values.len() > 0 {
        let t = values.drop_last();
        assert forall|i: int| 0 <= i < t.len() implies !(#[trigger] t[i]).is_nan() by {
            assert(t[i] == values[i]);
        }
        lemma_peak(t);
        assert(!values[values.len() - 1].is_nan());
        assert forall|i: int| 0 <= i < values.len() implies (#[trigger] values[i]).le(peak(values)) by {
            if i < t.len() {
                assert(t[i] == values[i]);
                assert(t[i].le(peak(t)));
            }
        }
        if peak(values) == values.last() {
            assert(values[values.len() - 1] == peak(values));
        } else if peak(t) != (Level { bits: 0 }) {
            let k = choose|k: int| 0 <= k < t.len() && t[k] == peak(t);
            assert(values[k] == t[k]);
        }
    }
}

/// A fixed pattern is used as it is. A morphing one is `Punch` where some band's
/// onset is at least 0.68; else it goes by the loudest band, and by the first of
/// them where several are.
pub proof fn law_pattern_follows_onset_and_loudest_band(
    fixed: WaveformPattern,
    energy: Seq<Level>,
    onset: Seq<Level>,
    loudest: int,
)
    requires
        energy.len() == 4,
        onset.len() == 4,
        forall|i: int| 0 <= i < 4 ==> !(#[trigger] energy[i]).is_nan(),
        forall|i: int| 0 <= i < 4 ==> !(#[trigger] onset[i]).is_nan(),
        0 <= loudest < 4,
        forall|i: int| 0 <= i < 4 ==> (#[trigger] energy[i]).le(energy[loudest]),
        forall|i: int| 0 <= i < loudest ==> (#[trigger] energy[i]).lt(energy[loudest]),
    ensures
        resolved_pattern(WaveformPatternMode::Fixed, fixed, energy, onset) == fixed,
        ({
            let pattern = resolved_pattern(WaveformPatternMode::AutoMorph, fixed, energy, onset);
            let hit = exists|i: int|
                0 <= i < 4 && (Level { bits: 0x3f2e_147b }).le(#[trigger] onset[i]);
            &&& hit ==> pattern == WaveformPattern::Punch
            &&& !hit && loudest == 0 ==> pattern == WaveformPattern::Smooth
            &&& !hit && loudest == 1 ==> pattern == WaveformPattern::Tide
            &&& !hit && loudest == 2 ==> pattern == WaveformPattern::Ripple
            &&& !hit && loudest == 3 ==> pattern == WaveformPattern::Shimmer
        }),
{
    law_dominant_band_is_the_first_loudest(energy);
    lemma_peak(onset);
    let d = dominant(energy);
    assert(energy[d].le(energy[loudest]));
    assert(energy[loudest].le(energy[d]));
    if exists|i: int| 0 <= i < 4 && (Level { bits: 0x3f2e_147b }).le(#[trigger] onset[i]) {
        let i = choose|i: int| 0 <= i < 4 && (Level { bits: 0x3f2e_147b }).le(#[trigger] onset[i]);
        assert(onset[i].le(peak(onset)));
    } else if onset.contains(peak(onset)) {
        let k = choose|k: int| 0 <= k < onset.len() && onset[k] == peak(onset);
        assert(!(Level { bits: 0x3f2e_147b }).le(onset[k]));
    }
}

/// While the items follow the strength, every byte of the rounded wave that is
/// in the device's range is sent as it is; other frequencies and amplitudes
/// become the nearer end of their range.
pub proof fn law_items_carry_the_wave(
    strength: u16,
    pattern: WaveformPattern,
    freq: Seq<u8>,
    amp: Seq<u8>,
    i: int,
)
    requires
        0 <= i < 4,
        freq.len() == 4,
        amp.len() == 4,
    ensures
        ({
            let sent = item_freq(AutoPulseMode::ByStrength, pattern, freq)[i];
            &&& 10 <= freq[i] <= 240 ==> sent == freq[i]
            &&& freq[i] < 10 ==> sent == 10
            &&& freq[i] > 240 ==> sent == 240
        }),
        strength > 0 ==> {
            let sent = item_amp(AutoPulseMode::ByStrength, pattern, strength, amp)[i];
            &&& 1 <= amp[i] <= 100 ==> sent == amp[i]
            &&& amp[i] == 0 ==> sent == 1
            &&& amp[i] > 100 ==> sent == 100
        },
        strength == 0 ==> item_amp(AutoPulseMode::ByStrength, pattern, strength, amp)[i] == 0,
{
}

/// At full output the bytes are those of the pattern.
pub proof fn law_full_output_has_the_pattern_bytes(
    strength: u16,
    pattern: WaveformPattern,
    freq: Seq<u8>,
    amp: Seq<u8>,
)
    ensures
        item_freq(AutoPulseMode::AlwaysMax, pattern, freq) == match pattern {
            WaveformPattern::Smooth => seq![10u8, 10, 10, 10],
            WaveformPattern::Punch => seq![10u8, 12, 14, 18],
            WaveformPattern::Tide => seq![10u8, 12, 15, 18],
            WaveformPattern::Ripple => seq![10u8, 12, 16, 20],
            WaveformPattern::Shimmer => seq![14u8, 18, 22, 26],
        },
        item_amp(AutoPulseMode::AlwaysMax, pattern, strength, amp) == match pattern {
            WaveformPattern::Smooth => seq![100u8, 100, 100, 100],
            WaveformPattern::Punch => seq![25u8, 100, 72, 42],
            WaveformPattern::Tide => seq![22u8, 48, 78, 100],
            WaveformPattern::Ripple => seq![42u8, 72, 100, 68],
            WaveformPattern::Shimmer => seq![52u8, 78, 96, 62],
        },
{
}

/// A full wave takes from 1 to 200, and any strength in between as it is given.
pub proof fn law_full_wave_is_in_range(max: u16)
    ensures
        1 <= max <= 200 ==> wave_cap(max) == max,
        max == 0 ==> wave_cap(max) == 1,
        max > 200 ==> wave_cap(max) == 200,
{
}

/// The amplitude of a wave is its rounded value, kept from 1 to 100; without
/// strength there is none.
pub proof fn law_amplitude_is_the_rounded_value(strength: u16, rounded: u8)
    ensures
        strength == 0 ==> amplitude(strength, rounded) == 0,
        strength > 0 && 1 <= rounded <= 100 ==> amplitude(strength, rounded) == rounded,
        strength > 0 && rounded == 0 ==> amplitude(strength, rounded) == 1,
        strength > 0 && rounded > 100 ==> amplitude(strength, rounded) == 100,
{
}

/// Without smoothing the strength is at its target at once. With smoothing it
/// moves by exactly the step, from 1 to 200, until no more than a step is left,
/// and then to the target.
pub proof fn law_smoothing_moves_by_the_step(
    current: u16,
    target: u16,
    smoothness: Level,
    max_step: u16,
)
    ensures
        smoothness.le(Level { bits: 0 }) ==> smoothed_step(current, target, smoothness, max_step)
            == target,
        (Level { bits: 0 }).lt(smoothness) ==> {
            let next = smoothed_step(current, target, smoothness, max_step);
            let step = if max_step == 0 {
                1int
            } else if max_step > 200 {
                200
            } else {
                max_step as int
            };
            &&& target - current > step ==> next == current + step
            &&& current - target > step ==> next == current - step
            &&& -step <= target - current <= step ==> next == target
        },
{
}

} // verus!
