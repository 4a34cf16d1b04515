//! Maps band levels to strengths and gathers them by channel.

use vstd::prelude::*;

use crate::level::Level;
use crate::types::{BandRouting, DglabChannel, StrengthRange, BAND_COUNT};

verus! {

/// Whether a level goes beyond the threshold, both in the unit range. A level
/// that stands for no number does.
pub open spec fn triggers(value: Level, threshold: Level) -> bool {
    !value.unit().le(threshold.unit())
}

/// The strength of a level: nothing up to the threshold, then the start of the
/// range and the rise above it.
pub open spec fn mapped_strength(value: Level, threshold: Level, range: StrengthRange, rise: u16) -> u16 {
    let r = range.ordered();
    let span = r.max - r.min;
    if !triggers(value, threshold) {
        0
    } else if rise <= span {
        (r.min + rise) as u16
    } else {
        r.max
    }
}

/// Maps a level to a strength. `rise` is the part of the range's span that
/// stands for how far the level is above the threshold, rounded; it counts up
/// to the whole span.
pub fn map_band_to_strength(value: Level, threshold: Level, range: StrengthRange, rise: u16) -> (r:
    u16)
    ensures
        r == mapped_strength(value, threshold, range, rise),
{
    let range = range.normalized();
    if value.clamp_unit().at_most(threshold.clamp_unit()) {
        return 0;
    }
    let span: u16 = range.max - range.min;
    if rise <= span {
        range.min + rise
    } else {
        range.max
    }
}

/// What a band asks of its channel: nothing unless its route is enabled and its
/// level is above the threshold.
pub open spec fn band_output(
    value: Level,
    route: BandRouting,
    ranges: Seq<StrengthRange>,
    rise: u16,
) -> Option<(DglabChannel, u16)> {
    if route.enabled && route.threshold.lt(value.unit()) {
        Some(
            (
                route.channel,
                mapped_strength(value.unit(), route.threshold, ranges[route.channel.slot()], rise),
            ),
        )
    } else {
        None
    }
}

fn output_of(value: Level, route: BandRouting, ranges: [StrengthRange; 2], rise: u16) -> (r: Option<
    (DglabChannel, u16),
>)
    ensures
        r == band_output(value, route, ranges@, rise),
{
    let value = value.clamp_unit();
    if route.enabled && route.threshold.below(value) {
        let range = ranges[route.channel.index()];
        Some((route.channel, map_band_to_strength(value, route.threshold, range, rise)))
    } else {
        None
    }
}

pub open spec fn band_outputs(
    values: Seq<Level>,
    routing: Seq<BandRouting>,
    ranges: Seq<StrengthRange>,
    rises: Seq<u16>,
) -> Seq<Option<(DglabChannel, u16)>> {
    Seq::new(
        BAND_COUNT as nat,
        |i: int| band_output(values[i], routing[i], ranges, rises[i]),
    )
}

/// What every band asks of its channel.
pub fn compute_band_outputs(
    values: [Level; BAND_COUNT],
    routing: [BandRouting; BAND_COUNT],
    ranges_by_channel: [StrengthRange; 2],
    rises: [u16; BAND_COUNT],
) -> (r: [Option<(DglabChannel, u16)>; BAND_COUNT])
    ensures
        r@ == band_outputs(values@, routing@, ranges_by_channel@, rises@),
{
    let r = [
        output_of(values[0], routing[0], ranges_by_channel, rises[0]),
        output_of(values[1], routing[1], ranges_by_channel, rises[1]),
        output_of(values[2], routing[2], ranges_by_channel, rises[2]),
        output_of(values[3], routing[3], ranges_by_channel, rises[3]),
    ];
    assert(r@ =~= band_outputs(values@, routing@, ranges_by_channel@, rises@));
    r
}

/// The greatest strength that is asked of a channel, or 0.
pub open spec fn strongest(outputs: Seq<Option<(DglabChannel, u16)>>, channel: DglabChannel) -> u16
    decreases outputs.len(),
{
    if outputs.len() == 0 {
        0
    } else {
        let before = strongest(outputs.drop_last(), channel);
        match outputs.last() {
            Some((c, strength)) => if c == channel && strength > before {
                strength
            } else {
                before
            },
            None => before,
        }
    }
}

/// The greatest strength that is asked of each channel.
pub fn aggregate_channel_strengths(outputs: [Option<(DglabChannel, u16)>; BAND_COUNT]) -> (r: [u16; 2])
    ensures
        r@ == seq![
            strongest(outputs@, DglabChannel::A),
            strongest(outputs@, DglabChannel::B),
        ],
{
    let mut a: u16 = 0;
    let mut b: u16 = 0;
    let mut i: usize = 0;
    while i < BAND_COUNT
        invariant
            i <= BAND_COUNT,
            outputs@.len() == BAND_COUNT,
            a == strongest(outputs@.take(i as int), DglabChannel::A),
            b == strongest(outputs@.take(i as int), DglabChannel::B),
        decreases BAND_COUNT - i,
    {
        assert(outputs@.take(i as int + 1).drop_last() =~= outputs@.take(i as int));
        match outputs[i] {
            Some((channel, strength)) => match channel {
                DglabChannel::A => if strength > a {
                    a = strength;
                },
                DglabChannel::B => if strength > b {
                    b = strength;
                },
            },
            None => {},
        }
        i += 1;
    }
    assert(outputs@.take(i as int) =~= outputs@);
    [a, b]
}

/// A band that drives the channel asks for no more than `strength`.
pub open spec fn asks_at_most(
    output: Option<(DglabChannel, u16)>,
    channel: DglabChannel,
    strength: u16,
) -> bool {
    output matches Some((c, s)) ==> c == channel ==> s <= strength
}

/// Whether an output drives the channel.
pub open spec fn drives(output: Option<(DglabChannel, u16)>, channel: DglabChannel) -> bool {
    output matches Some((c, s)) && c == channel
}

/// The gathered strength of a channel is asked for by one of its bands, or is 0
/// where it has none, and no band of the channel asks for more.
pub proof fn law_strongest_is_the_maximum(
    outputs: Seq<Option<(DglabChannel, u16)>>,
    channel: DglabChannel,
)
    ensures
        if exists|i: int| 0 <= i < outputs.len() && drives(#[trigger] outputs[i], channel) {
            outputs.contains(Some((channel, strongest(outputs, channel))))
        } else {
            strongest(outputs, channel) == 0
        },
        forall|i: int|
            0 <= i < outputs.len() ==> asks_at_most(
                #[trigger] outputs[i],
                channel,
                strongest(outputs, channel),
            ),
    decreases outputs.len(),
{
    if outputs.len() > 0 {
        let t = outputs.drop_last();
        law_strongest_is_the_maximum(t, channel);
        let before = strongest(t, channel);
        let now = strongest(outputs, channel);
        assert(before <= now);
        assert(outputs.last() == outputs[outputs.len() - 1]);
        if exists|i: int| 0 <= i < t.len() && drives(#[trigger] t[i], channel) {
            let i = choose|i: int| 0 <= i < t.len() && drives(#[trigger] t[i], channel);
            assert(drives(outputs[i], channel));
            let k = choose|k: int| 0 <= k < t.len() && t[k] == Some((channel, before));
            assert(outputs[k] == t[k]);
        } else {
            assert forall|i: int| 0 <= i < t.len() implies !drives(#[trigger] outputs[i], channel) by {
                assert(outputs[i] == t[i]);
            }
        }
        assert forall|i: int| 0 <= i < outputs.len() implies asks_at_most(
            #[trigger] outputs[i],
            channel,
            now,
        ) by {
            if i < t.len() {
                assert(outputs[i] == t[i]);
            }
        }
    }
}

/// The order of the bands plays no part in the gathered strength.
pub proof fn law_order_plays_no_part(
    outputs: Seq<Option<(DglabChannel, u16)>>,
    others: Seq<Option<(DglabChannel, u16)>>,
    channel: DglabChannel,
)
    requires
        outputs.to_multiset() == others.to_multiset(),
    ensures
        strongest(outputs, channel) == strongest(others, channel),
{
    lemma_no_stronger(outputs, others, channel);
    lemma_no_stronger(others, outputs, channel);
}

proof fn lemma_no_stronger(
    outputs: Seq<Option<(DglabChannel, u16)>>,
    others: Seq<Option<(DglabChannel, u16)>>,
    channel: DglabChannel,
)
    requires
        outputs.to_multiset() == others.to_multiset(),
    ensures
        strongest(outputs, channel) <= strongest(others, channel),
{
    law_strongest_is_the_maximum(outputs, channel);
    law_strongest_is_the_maximum(others, channel);
    let top = Some((channel, strongest(outputs, channel)));
    if outputs.contains(top) {
        outputs.to_multiset_ensures();
        others.to_multiset_ensures();
        assert(outputs.to_multiset().count(top) > 0);
        assert(others.contains(top));
        let i = choose|i: int| 0 <= i < others.len() && others[i] == top;
        assert(asks_at_most(others[i], channel, strongest(others, channel)));
    }
}

/// What is asked of one channel plays no part in the strength of the other:
/// lists that differ only there gather to the same strength.
pub proof fn law_channels_are_apart(
    outputs: Seq<Option<(DglabChannel, u16)>>,
    others: Seq<Option<(DglabChannel, u16)>>,
    channel: DglabChannel,
)
    requires
        outputs.len() == others.len(),
        forall|i: int|
            0 <= i < outputs.len() ==> #[trigger] outputs[i] == others[i] || !drives(
                outputs[i],
                channel,
            ) && !drives(others[i], channel),
    ensures
        strongest(outputs, channel) == strongest(others, channel),
    decreases outputs.len(),
{
    if outputs.len() > 0 {
        let n = outputs.len() - 1;
        let t = outputs.drop_last();
        assert forall|i: int| 0 <= i < t.len() implies #[trigger] t[i] == others.drop_last()[i]
            || !drives(t[i], channel) && !drives(others.drop_last()[i], channel) by {
            assert(t[i] == outputs[i]);
        }
        law_channels_are_apart(t, others.drop_last(), channel);
        assert(outputs[n] == others[n] || !drives(outputs[n], channel) && !drives(
            others[n],
            channel,
        ));
    }
}

/// A mapped strength is 0 or lies in the channel's range, and never above the
/// maximum strength.
pub proof fn law_mapped_strength_is_in_range(
    value: Level,
    threshold: Level,
    range: StrengthRange,
    rise: u16,
)
    ensures
        mapped_strength(value, threshold, range, rise) <= crate::types::MAX_STRENGTH,
        triggers(value, threshold) ==> range.ordered().min <= mapped_strength(
            value,
            threshold,
            range,
            rise,
        ) <= range.ordered().max,
        !triggers(value, threshold) ==> mapped_strength(value, threshold, range, rise) == 0,
{
}

/// A greater rise never gives a lesser strength, and a rise of the whole span
/// gives the end of the range.
pub proof fn law_mapped_strength_grows(
    value: Level,
    threshold: Level,
    range: StrengthRange,
    rise: u16,
    more: u16,
)
    requires
        rise <= more,
    ensures
        mapped_strength(value, threshold, range, rise) <= mapped_strength(
            value,
            threshold,
            range,
            more,
        ),
        triggers(value, threshold) && more >= range.ordered().max - range.ordered().min
            ==> mapped_strength(value, threshold, range, more) == range.ordered().max,
{
}

/// A higher level never gives a lesser strength, where its rise is no lesser.
pub proof fn law_mapped_strength_grows_with_the_level(
    value: Level,
    higher: Level,
    threshold: Level,
    range: StrengthRange,
    rise: u16,
    more: u16,
)
    requires
        value.le(higher),
        rise <= more,
    ensures
        mapped_strength(value, threshold, range, rise) <= mapped_strength(
            higher,
            threshold,
            range,
            more,
        ),
{
}

/// Above the threshold the strength exceeds the start of the range by exactly
/// the rise, up to the whole span; at or below the threshold it is 0.
pub proof fn law_strength_exceeds_the_start_by_the_rise(
    value: Level,
    threshold: Level,
    min: u16,
    max: u16,
    rise: u16,
)
    requires
        (Level { bits: 0 }).le(value),
        value.le(Level { bits: 0x3f80_0000 }),
        (Level { bits: 0 }).le(threshold),
        threshold.le(Level { bits: 0x3f80_0000 }),
        min <= max <= 200,
    ensures
        ({
            let strength = mapped_strength(value, threshold, StrengthRange { min, max }, rise);
            &&& value.le(threshold) ==> strength == 0
            &&& threshold.lt(value) && rise <= max - min ==> strength - min == rise
            &&& threshold.lt(value) && rise > max - min ==> strength == max
        }),
{
}

/// Different rises within the span give different strengths.
pub proof fn law_rises_are_told_apart(
    value: Level,
    threshold: Level,
    range: StrengthRange,
    rise: u16,
    other: u16,
)
    requires
        triggers(value, threshold),
        rise < other <= range.ordered().max - range.ordered().min,
    ensures
        mapped_strength(value, threshold, range, other) - mapped_strength(
            value,
            threshold,
            range,
            rise,
        ) == other - rise,
{
}

/// A level or threshold out of the unit range counts as its nearer end, and the
/// ends of a range count in either order and up to 200.
pub proof fn law_mapping_takes_the_nearest_in_range(
    value: Level,
    threshold: Level,
    min: u16,
    max: u16,
    rise: u16,
)
    ensures
        ({
            let zero = Level { bits: 0 };
            let one = Level { bits: 0x3f80_0000 };
            let range = StrengthRange { min, max };
            let strength = mapped_strength(value, threshold, range, rise);
            &&& value.lt(zero) ==> strength == mapped_strength(zero, threshold, range, rise)
            &&& one.lt(value) ==> strength == mapped_strength(one, threshold, range, rise)
            &&& threshold.lt(zero) ==> strength == mapped_strength(value, zero, range, rise)
            &&& one.lt(threshold) ==> strength == mapped_strength(value, one, range, rise)
            &&& strength == mapped_strength(
                value,
                threshold,
                StrengthRange { min: max, max: min },
                rise,
            )
            &&& min > 200 ==> strength == mapped_strength(
                value,
                threshold,
                StrengthRange { min: 200, max },
                rise,
            )
        }),
{
}

/// A band asks something of a channel exactly where its route is enabled and its
/// level, between zero and one, is above the threshold: of the route's channel,
/// by that channel's range and the band's own rise.
pub proof fn law_each_band_asks_its_own_channel(
    values: Seq<Level>,
    routing: Seq<BandRouting>,
    range_a: StrengthRange,
    range_b: StrengthRange,
    rises: Seq<u16>,
    i: int,
)
    requires
        0 <= i < 4,
        (Level { bits: 0 }).le(values[i]),
        values[i].le(Level { bits: 0x3f80_0000 }),
    ensures
        ({
            let outputs = band_outputs(values, routing, seq![range_a, range_b], rises);
            let route = routing[i];
            let asks = route.enabled && route.threshold.lt(values[i]);
            &&& outputs.len() == 4
            &&& outputs[i] is Some <==> asks
            &&& asks ==> outputs[i] == Some(
                (
                    route.channel,
                    match route.channel {
                        DglabChannel::A => mapped_strength(
                            values[i],
                            route.threshold,
                            range_a,
                            rises[i],
                        ),
                        DglabChannel::B => mapped_strength(
                            values[i],
                            route.threshold,
                            range_b,
                            rises[i],
                        ),
                    },
                ),
            )
        }),
{
}

/// A level out of the unit range asks what its nearer end asks, and a level that
/// is no number asks nothing.
pub proof fn law_bands_count_in_their_range(
    value: Level,
    route: BandRouting,
    ranges: Seq<StrengthRange>,
    rise: u16,
)
    ensures
        value.lt(Level { bits: 0 }) ==> band_output(value, route, ranges, rise) == band_output(
            Level { bits: 0 },
            route,
            ranges,
            rise,
        ),
        (Level { bits: 0x3f80_0000 }).lt(value) ==> band_output(value, route, ranges, rise)
            == band_output(Level { bits: 0x3f80_0000 }, route, ranges, rise),
        value.is_nan() ==> band_output(value, route, ranges, rise) is None,
{
}

} // verus!
