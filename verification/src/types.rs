//! Bands, channels and the settings that route one to the other.

use vstd::prelude::*;

use crate::level::Level;

verus! {

/// How many frequency bands are tracked.
pub const BAND_COUNT: usize = 4;

/// The greatest channel strength.
pub const MAX_STRENGTH: u16 = 200;

/// The longest attack, hold or release time, in milliseconds.
pub const MAX_ENVELOPE_MS: u16 = 2_000;

/// An output channel of the device.
#[derive(Debug, Clone, Copy, PartialEq, Eq, Structural, Default)]
pub enum DglabChannel {
    #[default]
    A,
    B,
}

impl DglabChannel {
    pub open spec fn name(self) -> Seq<char> {
        match self {
            DglabChannel::A => "A"@,
            DglabChannel::B => "B"@,
        }
    }

    pub open spec fn id(self) -> u8 {
        match self {
            DglabChannel::A => 1,
            DglabChannel::B => 2,
        }
    }

    pub open spec fn slot(self) -> int {
        match self {
            DglabChannel::A => 0,
            DglabChannel::B => 1,
        }
    }

    /// The name that the panels show.
    pub fn label(self) -> (r: &'static str)
        ensures
            r@ == self.name(),
    {
        match self {
            DglabChannel::A => "A",
            DglabChannel::B => "B",
        }
    }

    /// The letter of the channel in a pulse message.
    pub fn pulse_symbol(self) -> (r: &'static str)
        ensures
            r@ == self.name(),
    {
        match self {
            DglabChannel::A => "A",
            DglabChannel::B => "B",
        }
    }

    /// The number of the channel in a strength or clear message.
    pub fn strength_channel_id(self) -> (r: u8)
        ensures
            r == self.id(),
    {
        match self {
            DglabChannel::A => 1,
            DglabChannel::B => 2,
        }
    }

    /// The place of the channel in a pair of per-channel values.
    pub fn index(self) -> (r: usize)
        ensures
            r == self.slot(),
            r < 2,
    {
        match self {
            DglabChannel::A => 0,
            DglabChannel::B => 1,
        }
    }
}

#[derive(Debug, Clone, Copy, PartialEq, Eq, Structural, Default)]
pub enum AutoPulseMode {
    #[default]
    ByStrength,
    AlwaysMax,
}

#[derive(Debug, Clone, Copy, PartialEq, Eq, Structural, Default)]
pub enum WaveformPatternMode {
    Fixed,
    #[default]
    AutoMorph,
}

#[derive(Debug, Clone, Copy, PartialEq, Eq, Structural, Default)]
pub enum WaveformPattern {
    #[default]
    Smooth,
    Punch,
    Tide,
    Ripple,
    Shimmer,
}

#[derive(Debug, Clone, Copy, PartialEq, Eq, Structural, Default)]
pub enum BandDriveMode {
    #[default]
    Energy,
    Onset,
}

/// The musical role of a band, its trigger and its frequency range in hertz.
#[derive(Debug, Clone, Copy, PartialEq)]
pub struct BandProfile {
    pub short_name_en: &'static str,
    pub short_name_zh: &'static str,
    pub detail_en: &'static str,
    pub detail_zh: &'static str,
    pub recommended_threshold: Level,
    pub low_hz: u32,
    pub focus_hz: u32,
    pub high_hz: u32,
}

/// The suggested trigger of each band.
pub open spec fn suggested_threshold(index: int) -> Level {
    if index == 0 {
        Level { bits: 0x3ec2_8f5c }
    } else if index == 1 {
        Level { bits: 0x3eeb_851f }
    } else if index == 2 {
        Level { bits: 0x3ea3_d70a }
    } else {
        Level { bits: 0x3f0a_3d71 }
    }
}

/// The low end, the focus and the high end of each band.
pub open spec fn band_range(index: int) -> (u32, u32, u32) {
    if index == 0 {
        (30, 55, 110)
    } else if index == 1 {
        (80, 150, 280)
    } else if index == 2 {
        (250, 900, 2_600)
    } else {
        (2_200, 6_000, 12_000)
    }
}

/// The short name of each band, in English and in Chinese.
pub open spec fn band_names(index: int) -> (Seq<char>, Seq<char>) {
    if index == 0 {
        ("Kick / Sub"@, "底鼓 / 下潜"@)
    } else if index == 1 {
        ("Bass / Groove"@, "贝斯 / 律动"@)
    } else if index == 2 {
        ("Vocal / Lead"@, "人声 / 主旋律"@)
    } else {
        ("Hats / Air"@, "镲片 / 空气感"@)
    }
}

/// What each band picks up, in English and in Chinese.
pub open spec fn band_details(index: int) -> (Seq<char>, Seq<char>) {
    if index == 0 {
        (
            "Kick drum thump, sub drops, floor tom punch."@,
            "底鼓冲击、下潜、落地嗵鼓的低频拳感。"@,
        )
    } else if index == 1 {
        (
            "Bass line movement, warm low-end body, lower synth groove."@,
            "贝斯线条、低频温暖厚度、低音合成器律动。"@,
        )
    } else if index == 2 {
        (
            "Vocal body and clarity, snare crack, guitar or piano lead."@,
            "人声主体与清晰度、军鼓脆点、吉他或钢琴主旋律。"@,
        )
    } else {
        (
            "Hi-hat, cymbal shimmer, breath noise, ambience sparkle."@,
            "踩镲、镲片亮度、呼吸声和环境空气感细节。"@,
        )
    }
}

impl BandProfile {
    /// The low and the high end of the band.
    pub fn range_hz(self) -> (r: (u32, u32))
        ensures
            r == (self.low_hz, self.high_hz),
    {
        (self.low_hz, self.high_hz)
    }
}

/// The profile of the band at `index`.
pub fn band_profile(index: usize) -> (r: BandProfile)
    requires
        index < BAND_COUNT,
    ensures
        r.short_name_en@ == band_names(index as int).0,
        r.short_name_zh@ == band_names(index as int).1,
        r.detail_en@ == band_details(index as int).0,
        r.detail_zh@ == band_details(index as int).1,
        r.recommended_threshold == suggested_threshold(index as int),
        (r.low_hz, r.focus_hz, r.high_hz) == band_range(index as int),
        0 < r.low_hz < r.focus_hz < r.high_hz,
{
    if index == 0 {
        BandProfile {
            short_name_en: "Kick / Sub",
            short_name_zh: "底鼓 / 下潜",
            detail_en: "Kick drum thump, sub drops, floor tom punch.",
            detail_zh: "底鼓冲击、下潜、落地嗵鼓的低频拳感。",
            recommended_threshold: Level::from_bits(0x3ec2_8f5c),
            low_hz: 30,
            focus_hz: 55,
            high_hz: 110,
        }
    } else if index == 1 {
        BandProfile {
            short_name_en: "Bass / Groove",
            short_name_zh: "贝斯 / 律动",
            detail_en: "Bass line movement, warm low-end body, lower synth groove.",
            detail_zh: "贝斯线条、低频温暖厚度、低音合成器律动。",
            recommended_threshold: Level::from_bits(0x3eeb_851f),
            low_hz: 80,
            focus_hz: 150,
            high_hz: 280,
        }
    } else if index == 2 {
        BandProfile {
            short_name_en: "Vocal / Lead",
            short_name_zh: "人声 / 主旋律",
            detail_en: "Vocal body and clarity, snare crack, guitar or piano lead.",
            detail_zh: "人声主体与清晰度、军鼓脆点、吉他或钢琴主旋律。",
            recommended_threshold: Level::from_bits(0x3ea3_d70a),
            low_hz: 250,
            focus_hz: 900,
            high_hz: 2_600,
        }
    } else {
        BandProfile {
            short_name_en: "Hats / Air",
            short_name_zh: "镲片 / 空气感",
            detail_en: "Hi-hat, cymbal shimmer, breath noise, ambience sparkle.",
            detail_zh: "踩镲、镲片亮度、呼吸声和环境空气感细节。",
            recommended_threshold: Level::from_bits(0x3f0a_3d71),
            low_hz: 2_200,
            focus_hz: 6_000,
            high_hz: 12_000,
        }
    }
}

/// How one band drives a channel: its trigger and its envelope times.
#[derive(Debug, Clone, Copy, PartialEq)]
pub struct BandRouting {
    pub enabled: bool,
    pub threshold: Level,
    pub channel: DglabChannel,
    pub attack_ms: u16,
    pub hold_ms: u16,
    pub release_ms: u16,
}

pub open spec fn min_u16(a: u16, b: u16) -> u16 {
    if a <= b {
        a
    } else {
        b
    }
}

impl BandRouting {
    /// A route with the standard envelope times.
    pub open spec fn standard(enabled: bool, threshold: Level, channel: DglabChannel) -> BandRouting {
        BandRouting { enabled, threshold, channel, attack_ms: 60, hold_ms: 140, release_ms: 260 }
    }

    /// The route with its threshold in the unit range and its times limited.
    pub open spec fn limited(self) -> BandRouting {
        BandRouting {
            enabled: self.enabled,
            threshold: self.threshold.unit(),
            channel: self.channel,
            attack_ms: min_u16(self.attack_ms, MAX_ENVELOPE_MS),
            hold_ms: min_u16(self.hold_ms, MAX_ENVELOPE_MS),
            release_ms: min_u16(self.release_ms, MAX_ENVELOPE_MS),
        }
    }

    pub fn new(enabled: bool, threshold: Level, channel: DglabChannel) -> (r: BandRouting)
        ensures
            r == BandRouting::standard(enabled, threshold, channel),
    {
        BandRouting { enabled, threshold, channel, attack_ms: 60, hold_ms: 140, release_ms: 260 }
    }

    /// Limits the threshold to the unit range and the times to their maximum.
    pub fn limit(self) -> (r: BandRouting)
        ensures
            r == self.limited(),
    {
        BandRouting {
            enabled: self.enabled,
            threshold: self.threshold.clamp_unit(),
            channel: self.channel,
            attack_ms: lesser(self.attack_ms, MAX_ENVELOPE_MS),
            hold_ms: lesser(self.hold_ms, MAX_ENVELOPE_MS),
            release_ms: lesser(self.release_ms, MAX_ENVELOPE_MS),
        }
    }
}

impl Default for BandRouting {
    fn default() -> (r: BandRouting)
        ensures
            r == BandRouting::standard(true, Level { bits: crate::level::HALF }, DglabChannel::A),
    {
        BandRouting::new(true, Level::from_bits(crate::level::HALF), DglabChannel::A)
    }
}

/// The lesser of two numbers.
pub fn lesser(a: u16, b: u16) -> (r: u16)
    ensures
        r == min_u16(a, b),
{
    if a <= b {
        a
    } else {
        b
    }
}

/// The standard routes: the two low bands to channel A, the two high ones to B,
/// each at its suggested trigger.
pub open spec fn standard_routing() -> Seq<BandRouting> {
    seq![
        BandRouting::standard(true, suggested_threshold(0), DglabChannel::A),
        BandRouting::standard(true, suggested_threshold(1), DglabChannel::A),
        BandRouting::standard(true, suggested_threshold(2), DglabChannel::B),
        BandRouting::standard(true, suggested_threshold(3), DglabChannel::B),
    ]
}

pub fn default_band_routing() -> (r: [BandRouting; BAND_COUNT])
    ensures
        r@ == standard_routing(),
{
    [
        BandRouting::new(true, band_profile(0).recommended_threshold, DglabChannel::A),
        BandRouting::new(true, band_profile(1).recommended_threshold, DglabChannel::A),
        BandRouting::new(true, band_profile(2).recommended_threshold, DglabChannel::B),
        BandRouting::new(true, band_profile(3).recommended_threshold, DglabChannel::B),
    ]
}

/// Every route limited.
pub open spec fn limited_routing(s: Seq<BandRouting>) -> Seq<BandRouting> {
    Seq::new(s.len(), |i: int| s[i].limited())
}

pub fn limit_band_routing(routing: [BandRouting; BAND_COUNT]) -> (r: [BandRouting; BAND_COUNT])
    ensures
        r@ == limited_routing(routing@),
{
    [routing[0].limit(), routing[1].limit(), routing[2].limit(), routing[3].limit()]
}

/// The strengths that a channel moves between.
#[derive(Debug, Clone, Copy, PartialEq, Eq, Structural)]
pub struct StrengthRange {
    pub min: u16,
    pub max: u16,
}

impl StrengthRange {
    /// The range with both ends within the maximum strength and in order.
    pub open spec fn ordered(self) -> StrengthRange {
        let min = min_u16(self.min, MAX_STRENGTH);
        let max = min_u16(self.max, MAX_STRENGTH);
        if min <= max {
            StrengthRange { min, max }
        } else {
            StrengthRange { min: max, max: min }
        }
    }

    pub fn new(min: u16, max: u16) -> (r: StrengthRange)
        ensures
            r == (StrengthRange { min, max }),
    {
        StrengthRange { min, max }
    }

    /// Limits both ends to the maximum strength and puts them in order.
    pub fn normalized(self) -> (r: StrengthRange)
        ensures
            r == self.ordered(),
            r.min <= r.max <= MAX_STRENGTH,
    {
        let min: u16 = lesser(self.min, MAX_STRENGTH);
        let max: u16 = lesser(self.max, MAX_STRENGTH);
        if min <= max {
            StrengthRange { min, max }
        } else {
            StrengthRange { min: max, max: min }
        }
    }
}

impl Default for StrengthRange {
    fn default() -> (r: StrengthRange)
        ensures
            r == (StrengthRange { min: 0, max: MAX_STRENGTH }),
    {
        StrengthRange { min: 0, max: MAX_STRENGTH }
    }
}

/// A normalized range is in order and within the maximum strength, and
/// normalizing it again changes nothing.
pub proof fn law_normalized_range_is_stable(range: StrengthRange)
    ensures
        range.ordered().min <= range.ordered().max <= MAX_STRENGTH,
        range.ordered().ordered() == range.ordered(),
{
}

/// Limiting a route a second time changes nothing.
pub proof fn law_limited_route_is_stable(route: BandRouting)
    ensures
        route.limited().limited() == route.limited(),
{
}

/// The standard routes need no limiting.
pub proof fn law_standard_routing_is_limited()
    ensures
        limited_routing(standard_routing()) == standard_routing(),
{
    assert(limited_routing(standard_routing()) =~= standard_routing());
}

/// The channels are told apart everywhere: by letter, by number and by place.
pub proof fn law_channels_have_their_marks()
    ensures
        DglabChannel::A.name() == "A"@,
        DglabChannel::B.name() == "B"@,
        DglabChannel::A.id() == 1,
        DglabChannel::B.id() == 2,
        DglabChannel::A.slot() == 0,
        DglabChannel::B.slot() == 1,
{
}

/// The normal form of a range has the lesser end first, takes no account of the
/// order in which the ends are given, and keeps ends that are not above 200.
pub proof fn law_normalized_range_has_the_given_ends(a: u16, b: u16)
    ensures
        (StrengthRange { min: a, max: b }).ordered() == (StrengthRange { min: b, max: a }).ordered(),
        a <= b <= 200 ==> (StrengthRange { min: a, max: b }).ordered() == (StrengthRange {
            min: a,
            max: b,
        }),
        a <= 200 < b ==> (StrengthRange { min: a, max: b }).ordered() == (StrengthRange {
            min: a,
            max: 200,
        }),
        a > 200 && b > 200 ==> (StrengthRange { min: a, max: b }).ordered() == (StrengthRange {
            min: 200,
            max: 200,
        }),
{
}

/// Limiting a route changes nothing but what is out of its range.
pub proof fn law_limited_route_keeps_what_is_in_range(route: BandRouting)
    ensures
        route.limited().enabled == route.enabled,
        route.limited().channel == route.channel,
        route.threshold.is_nan() || ((Level { bits: 0 }).le(route.threshold) && route.threshold.le(
            Level { bits: 0x3f80_0000 },
        )) ==> route.limited().threshold == route.threshold,
        route.attack_ms <= 2000 ==> route.limited().attack_ms == route.attack_ms,
        route.attack_ms > 2000 ==> route.limited().attack_ms == 2000,
        route.hold_ms <= 2000 ==> route.limited().hold_ms == route.hold_ms,
        route.hold_ms > 2000 ==> route.limited().hold_ms == 2000,
        route.release_ms <= 2000 ==> route.limited().release_ms == route.release_ms,
        route.release_ms > 2000 ==> route.limited().release_ms == 2000,
{
}

/// The bands go upwards: each covers a range around its focus, reaches higher than
/// the one before it, and leaves no gap to it. Together they go from 30 to 12000
/// hertz.
pub proof fn law_bands_go_upwards(i: int)
    requires
        0 <= i < 4,
    ensures
        ({
            let (lo, focus, hi) = band_range(i);
            &&& lo < focus < hi
            &&& i < 3 ==> lo < band_range(i + 1).0 < hi < band_range(i + 1).2 && focus < band_range(
                i + 1,
            ).1
        }),
        band_range(0).0 == 30,
        band_range(3).2 == 12_000,
        (Level { bits: 0 }).lt(suggested_threshold(i)),
        suggested_threshold(i).lt(Level { bits: 0x3f80_0000 }),
{
}

/// The standard routes are all in use, at the suggested triggers and with the
/// standard times: the two low bands go to channel A, the two high ones to B.
pub proof fn law_standard_routes_part_the_bands(i: int)
    requires
        0 <= i < 4,
    ensures
        standard_routing().len() == 4,
        standard_routing()[i].enabled,
        standard_routing()[i].threshold == suggested_threshold(i),
        standard_routing()[i].channel == if i < 2 {
            DglabChannel::A
        } else {
            DglabChannel::B
        },
        standard_routing()[i].attack_ms == 60,
        standard_routing()[i].hold_ms == 140,
        standard_routing()[i].release_ms == 260,
{
}

/// Limiting routes limits each of them at its place.
pub proof fn law_routes_are_limited_one_by_one(routes: Seq<BandRouting>, i: int)
    requires
        0 <= i < routes.len(),
    ensures
        limited_routing(routes).len() == routes.len(),
        limited_routing(routes)[i] == routes[i].limited(),
        limited_routing(routes)[i].channel == routes[i].channel,
{
}

} // verus!
