//! The attack, hold and release of a band's level. The levels that the times
//! lead to are worked out by the caller; what becomes of them is decided here.

use vstd::prelude::*;

use crate::level::{Level, ONE, ZERO};

verus! {

/// Below this a fading level counts as silence: 0.0001.
pub const SILENCE: u32 = 0x38d1_b717;

/// The level of a band, and how long it is held yet.
#[derive(Debug, Clone, Copy)]
pub struct BandEnvelopeState {
    pub value: Level,
    pub hold_remaining_ms: Level,
}

impl Default for BandEnvelopeState {
    fn default() -> (r: BandEnvelopeState)
        ensures
            r.value.bits == ZERO,
            r.hold_remaining_ms.bits == ZERO,
    {
        BandEnvelopeState {
            value: Level::from_bits(ZERO),
            hold_remaining_ms: Level::from_bits(ZERO),
        }
    }
}

/// Where the elapsed time leads, in every direction.
#[derive(Debug, Clone, Copy)]
pub struct EnvelopeMoves {
    /// The value on its way up, by the attack time.
    pub risen: Level,
    /// The value on its way down, by the release time and the time that the hold
    /// has left over.
    pub fallen: Level,
    /// The whole hold time, in milliseconds.
    pub full_hold: Level,
    /// What is left of the hold.
    pub hold_left: Level,
    /// What the hold has left of the elapsed time.
    pub time_left: Level,
}

/// The value on its way to the target: at once where it takes no time.
pub open spec fn approached(target: Level, duration_ms: u16, on_the_way: Level) -> Level {
    if duration_ms == 0 {
        target
    } else {
        on_the_way
    }
}

/// `on_the_way` is the share of the way that the elapsed time allows.
pub fn approach_value(target: Level, duration_ms: u16, on_the_way: Level) -> (r: Level)
    ensures
        r == approached(target, duration_ms, on_the_way),
{
    if duration_ms == 0 {
        target
    } else {
        on_the_way
    }
}

/// The envelope before silence is cut off: a rise starts the hold anew, a fall
/// waits for its end, and a level that stays keeps it full.
pub open spec fn moved(
    state: BandEnvelopeState,
    target: Level,
    moves: EnvelopeMoves,
) -> BandEnvelopeState {
    let zero = Level { bits: ZERO };
    if state.value.lt(target) {
        BandEnvelopeState {
            value: moves.risen,
            hold_remaining_ms: if zero.lt(target) {
                moves.full_hold
            } else {
                state.hold_remaining_ms
            },
        }
    } else if target.lt(state.value) {
        BandEnvelopeState {
            value: if zero.lt(moves.time_left) {
                moves.fallen
            } else {
                state.value
            },
            hold_remaining_ms: if zero.lt(state.hold_remaining_ms) {
                moves.hold_left
            } else {
                state.hold_remaining_ms
            },
        }
    } else if zero.lt(target) {
        BandEnvelopeState { hold_remaining_ms: moves.full_hold, ..state }
    } else {
        state
    }
}

/// The envelope after a step towards a target.
pub open spec fn stepped(
    state: BandEnvelopeState,
    target: Level,
    moves: EnvelopeMoves,
) -> BandEnvelopeState {
    let zero = Level { bits: ZERO };
    let target = target.unit();
    let next = moved(state, target, moves);
    if target.le(zero) && next.value.lt(Level { bits: SILENCE }) {
        BandEnvelopeState { value: zero, ..next }
    } else {
        next
    }
}

/// Moves an envelope towards a target and gives its level.
pub fn apply_band_envelope_step(
    state: &mut BandEnvelopeState,
    target: Level,
    moves: EnvelopeMoves,
) -> (r: Level)
    ensures
        *final(state) == stepped(*old(state), target, moves),
        r == stepped(*old(state), target, moves).value.unit(),
{
    let zero = Level::from_bits(ZERO);
    let target = target.clamp_unit();
    if state.value.below(target) {
        state.value = moves.risen;
        if zero.below(target) {
            state.hold_remaining_ms = moves.full_hold;
        }
    } else if target.below(state.value) {
        if zero.below(state.hold_remaining_ms) {
            state.hold_remaining_ms = moves.hold_left;
        }
        if zero.below(moves.time_left) {
            state.value = moves.fallen;
        }
    } else if zero.below(target) {
        state.hold_remaining_ms = moves.full_hold;
    }
    if target.at_most(zero) && state.value.below(Level::from_bits(SILENCE)) {
        state.value = zero;
    }
    state.value.clamp_unit()
}

/// While the hold takes up the whole time, a falling target leaves the level as
/// it is.
pub proof fn law_hold_keeps_the_level(
    state: BandEnvelopeState,
    target: Level,
    moves: EnvelopeMoves,
)
    requires
        target.unit().lt(state.value),
        moves.time_left.le(Level { bits: ZERO }),
        (Level { bits: SILENCE }).le(state.value),
    ensures
        stepped(state, target, moves).value == state.value,
{
}

/// A level lies between zero and one, if it is a number.
pub proof fn law_level_is_in_range(state: BandEnvelopeState, target: Level, moves: EnvelopeMoves)
    ensures
        ({
            let level = stepped(state, target, moves).value.unit();
            level.is_nan() || ((Level { bits: ZERO }).le(level) && level.le(Level { bits: ONE }))
        }),
{
}

/// A target in its range is taken as it is; one below zero counts as zero, one
/// above one as one.
pub proof fn law_targets_count_in_their_range(
    state: BandEnvelopeState,
    target: Level,
    moves: EnvelopeMoves,
)
    ensures
        target.lt(Level { bits: 0 }) ==> stepped(state, target, moves) == stepped(
            state,
            Level { bits: 0 },
            moves,
        ),
        (Level { bits: 0x3f80_0000 }).lt(target) ==> stepped(state, target, moves) == stepped(
            state,
            Level { bits: 0x3f80_0000 },
            moves,
        ),
{
}

/// A target above the level is approached by the attack, and the hold is full
/// again.
pub proof fn law_attack_leads_up(state: BandEnvelopeState, target: Level, moves: EnvelopeMoves)
    requires
        (Level { bits: 0 }).lt(target),
        target.le(Level { bits: 0x3f80_0000 }),
        state.value.lt(target),
    ensures
        stepped(state, target, moves).value == moves.risen,
        stepped(state, target, moves).hold_remaining_ms == moves.full_hold,
{
}

/// A target below the level is approached by the release as soon as the hold
/// leaves time over, and not before; the hold goes on running out. Only towards
/// silence is a level below 0.0001 cut off.
pub proof fn law_release_leads_down(state: BandEnvelopeState, target: Level, moves: EnvelopeMoves)
    requires
        (Level { bits: 0 }).le(target),
        target.le(Level { bits: 0x3f80_0000 }),
        target.lt(state.value),
    ensures
        ({
            let zero = Level { bits: 0 };
            let next = stepped(state, target, moves);
            let led_to = if zero.lt(moves.time_left) {
                moves.fallen
            } else {
                state.value
            };
            &&& zero.lt(target) ==> next.value == led_to
            &&& !zero.lt(target) && !led_to.lt(Level { bits: 0x38d1_b717 }) ==> next.value == led_to
            &&& !zero.lt(target) && led_to.lt(Level { bits: 0x38d1_b717 }) ==> next.value == zero
            &&& zero.lt(state.hold_remaining_ms) ==> next.hold_remaining_ms == moves.hold_left
            &&& !zero.lt(state.hold_remaining_ms) ==> next.hold_remaining_ms
                == state.hold_remaining_ms
        }),
{
}

/// A target that the level has reached leaves it there and keeps the hold full;
/// silence that has been reached stays as it is.
pub proof fn law_a_reached_target_stays(
    state: BandEnvelopeState,
    target: Level,
    moves: EnvelopeMoves,
)
    requires
        (Level { bits: 0 }).le(target),
        target.le(Level { bits: 0x3f80_0000 }),
        state.value.le(target),
        target.le(state.value),
    ensures
        (Level { bits: 0 }).lt(target) ==> stepped(state, target, moves).value == state.value
            && stepped(state, target, moves).hold_remaining_ms == moves.full_hold,
        !(Level { bits: 0 }).lt(target) ==> stepped(state, target, moves).value == (Level {
            bits: 0,
        }) && stepped(state, target, moves).hold_remaining_ms == state.hold_remaining_ms,
{
}

/// A way that takes no time ends at its target, any other where the time leads.
pub proof fn law_a_way_without_time_ends_at_once(target: Level, duration_ms: u16, on_the_way: Level)
    ensures
        approached(target, 0, on_the_way) == target,
        duration_ms > 0 ==> approached(target, duration_ms, on_the_way) == on_the_way,
{
}

/// A target that stands for no number leaves the envelope as it is. A level below
/// zero comes back to silence by the attack, with the hold as it was.
pub proof fn law_odd_levels_do_no_harm(
    state: BandEnvelopeState,
    target: Level,
    moves: EnvelopeMoves,
)
    ensures
        target.is_nan() ==> stepped(state, target, moves) == state,
        state.value.lt(Level { bits: 0 }) && target.bits == 0 ==> {
            let next = stepped(state, target, moves);
            &&& next.value == if moves.risen.lt(Level { bits: 0x38d1_b717 }) {
                Level { bits: 0 }
            } else {
                moves.risen
            }
            &&& next.hold_remaining_ms == state.hold_remaining_ms
        },
{
}

} // verus!
