//! The strengths of the last seconds.

use vstd::prelude::*;

use std::collections::VecDeque;

use crate::seconds::Seconds;

verus! {

/// The most points that are kept.
pub const STRENGTH_HISTORY_MAX_POINTS: usize = 300;

/// How many seconds a point is kept: 20.
pub const STRENGTH_HISTORY_WINDOW: u64 = 0x4034_0000_0000_0000;

/// How many seconds points are apart: 0.25.
pub const STRENGTH_HISTORY_SAMPLE_INTERVAL: u64 = 0x3fd0_0000_0000_0000;

/// The strengths at a time, in seconds since the start.
#[derive(Debug, Clone, Copy)]
pub struct HistoryPoint {
    pub at: Seconds,
    pub a: u16,
    pub b: u16,
}

/// Whether the next point is too close to one that is `elapsed` seconds old.
pub open spec fn is_close(elapsed: Seconds) -> bool {
    elapsed.lt(Seconds { bits: STRENGTH_HISTORY_SAMPLE_INTERVAL })
}

/// Whether a point that is `elapsed` seconds old is still in the window.
pub open spec fn is_recent(elapsed: Seconds) -> bool {
    elapsed.le(Seconds { bits: STRENGTH_HISTORY_WINDOW })
}

/// The first position from `from` on that is still in the window, or the
/// length.
pub open spec fn first_recent(elapsed: Seq<Seconds>, from: int) -> int
    decreases elapsed.len() - from,
{
    if 0 <= from < elapsed.len() && !is_recent(elapsed[from]) {
        first_recent(elapsed, from + 1)
    } else {
        from
    }
}

/// How many of `len` points are too many beside one more.
pub open spec fn surplus(len: int) -> int {
    if len + 1 > STRENGTH_HISTORY_MAX_POINTS {
        len + 1 - STRENGTH_HISTORY_MAX_POINTS
    } else {
        0
    }
}

/// The points with the present strengths, where `elapsed` tells how old each
/// point is: a last point that is too close gets the strengths, else a point is
/// added, the first ones beyond the maximum are dropped, and then the first ones
/// that have left the window.
pub open spec fn with_point(
    points: Seq<HistoryPoint>,
    now: Seconds,
    elapsed: Seq<Seconds>,
    a: u16,
    b: u16,
) -> Seq<HistoryPoint> {
    if points.len() > 0 && is_close(elapsed.last()) {
        points.drop_last().push(HistoryPoint { at: points.last().at, a, b })
    } else {
        points.skip(first_recent(elapsed, surplus(points.len() as int))).push(
            HistoryPoint { at: now, a, b },
        )
    }
}

#[derive(Debug)]
pub struct StrengthHistory {
    pub points: VecDeque<HistoryPoint>,
}

impl StrengthHistory {
    pub fn new() -> (r: StrengthHistory)
        ensures
            r.points@.len() == 0,
    {
        StrengthHistory { points: VecDeque::new() }
    }

    /// Notes the present strengths. `elapsed` holds, for every point, `now` less
    /// its time, rounded to double precision.
    pub fn push_strength_history(
        &mut self,
        now: Seconds,
        elapsed: &Vec<Seconds>,
        output_strengths: [u16; 2],
    )
        requires
            now.is_finite(),
            elapsed@.len() == old(self).points@.len(),
        ensures
            final(self).points@ == with_point(
                old(self).points@,
                now,
                elapsed@,
                output_strengths@[0],
                output_strengths@[1],
            ),
    {
        let a: u16 = output_strengths[0];
        let b: u16 = output_strengths[1];
        let ghost before = self.points@;
        let n: usize = self.points.len();
        if n > 0 && elapsed[n - 1].below(Seconds::from_bits(STRENGTH_HISTORY_SAMPLE_INTERVAL)) {
            let last: HistoryPoint = self.points[n - 1];
            let _replaced = self.points.pop_back();
            self.points.push_back(HistoryPoint { at: last.at, a, b });
            assert(self.points@ =~= before.drop_last().push(HistoryPoint { at: last.at, a, b }));
            return;
        }
        let mut gone: usize = 0;
        assert(before.skip(0) =~= before);
        while self.points.len() >= STRENGTH_HISTORY_MAX_POINTS
            invariant
                n == before.len(),
                gone <= n,
                gone <= surplus(n as int),
                self.points@ == before.skip(gone as int),
            decreases n - gone,
        {
            let _dropped = self.points.pop_front();
            gone += 1;
            assert(self.points@ =~= before.skip(gone as int));
        }
        assert(gone == surplus(n as int));
        while gone < n && !elapsed[gone].at_most(Seconds::from_bits(STRENGTH_HISTORY_WINDOW))
            invariant
                n == before.len(),
                n == elapsed@.len(),
                gone <= n,
                self.points@ == before.skip(gone as int),
                first_recent(elapsed@, gone as int) == first_recent(elapsed@, surplus(n as int)),
            decreases n - gone,
        {
            let _dropped = self.points.pop_front();
            gone += 1;
            assert(self.points@ =~= before.skip(gone as int));
        }
        self.points.push_back(HistoryPoint { at: now, a, b });
    }
}

impl Default for StrengthHistory {
    fn default() -> (r: StrengthHistory)
        ensures
            r.points@.len() == 0,
    {
        StrengthHistory::new()
    }
}

/// The points are in the order of their times and not beyond `now`.
pub open spec fn is_history(points: Seq<HistoryPoint>, now: Seconds) -> bool {
    &&& points.len() <= STRENGTH_HISTORY_MAX_POINTS
    &&& forall|i: int, j: int|
        0 <= i < j < points.len() ==> (#[trigger] points[i]).at.le((#[trigger] points[j]).at)
    &&& forall|i: int| 0 <= i < points.len() ==> (#[trigger] points[i]).at.le(now)
}

proof fn lemma_first_recent(elapsed: Seq<Seconds>, from: int)
    requires
        0 <= from <= elapsed.len(),
    ensures
        from <= first_recent(elapsed, from) <= elapsed.len(),
        first_recent(elapsed, from) < elapsed.len() ==> is_recent(
            elapsed[first_recent(elapsed, from)],
        ),
    decreases elapsed.len() - from,
{
    if from < elapsed.len() && !is_recent(elapsed[from]) {
        lemma_first_recent(elapsed, from + 1);
    }
}

/// As time goes on the history stays in order and bounded, and its last point
/// has the present strengths.
pub proof fn law_history_stays_in_order(
    points: Seq<HistoryPoint>,
    last_time: Seconds,
    now: Seconds,
    elapsed: Seq<Seconds>,
    a: u16,
    b: u16,
)
    requires
        is_history(points, last_time),
        last_time.le(now),
        elapsed.len() == points.len(),
    ensures
        is_history(with_point(points, now, elapsed, a, b), now),
        with_point(points, now, elapsed, a, b).len() > 0,
        with_point(points, now, elapsed, a, b).last().a == a,
        with_point(points, now, elapsed, a, b).last().b == b,
{
    let next = with_point(points, now, elapsed, a, b);
    if points.len() > 0 && is_close(elapsed.last()) {
        assert forall|i: int| 0 <= i < next.len() implies (#[trigger] next[i]).at
            == points[i].at by {}
    } else {
        let first = first_recent(elapsed, surplus(points.len() as int));
        lemma_first_recent(elapsed, surplus(points.len() as int));
        assert forall|i: int| 0 <= i < next.len() - 1 implies #[trigger] next[i] == points[i
            + first] by {}
        assert(next[next.len() - 1].at == now);
    }
}

/// A point that is added leaves none at the front that has left the window.
pub proof fn law_the_first_point_is_recent(
    points: Seq<HistoryPoint>,
    now: Seconds,
    elapsed: Seq<Seconds>,
    a: u16,
    b: u16,
)
    requires
        elapsed.len() == points.len(),
        points.len() > 0 ==> !is_close(elapsed.last()),
    ensures
        ({
            let next = with_point(points, now, elapsed, a, b);
            let first = points.len() + 1 - next.len();
            first < points.len() ==> next[0] == points[first] && is_recent(elapsed[first])
        }),
{
    lemma_first_recent(elapsed, surplus(points.len() as int));
}

/// Strengths less than a quarter of a second after the last point take its
/// place: the number of points and their times stay, and so do all other points.
pub proof fn law_close_strengths_replace_the_last(
    points: Seq<HistoryPoint>,
    now: Seconds,
    elapsed: Seq<Seconds>,
    a: u16,
    b: u16,
    i: int,
)
    requires
        elapsed.len() == points.len(),
        points.len() > 0,
        elapsed.last().lt(Seconds { bits: 0x3fd0_0000_0000_0000 }),
        0 <= i < points.len(),
    ensures
        ({
            let next = with_point(points, now, elapsed, a, b);
            &&& next.len() == points.len()
            &&& next[i].at == points[i].at
            &&& i < points.len() - 1 ==> next[i] == points[i]
            &&& next.last().a == a && next.last().b == b
        }),
{
}

/// Strengths at least a quarter of a second after the last point are a point of
/// their own at the present time. It follows the latest of the old points, in
/// their order: a point goes if with it there would be more than 300, or if it
/// and all before it are more than 20 seconds old, and no other goes.
pub proof fn law_later_strengths_are_a_new_point(
    points: Seq<HistoryPoint>,
    now: Seconds,
    elapsed: Seq<Seconds>,
    a: u16,
    b: u16,
)
    requires
        elapsed.len() == points.len(),
        points.len() > 0 ==> !elapsed.last().lt(Seconds { bits: 0x3fd0_0000_0000_0000 }),
    ensures
        ({
            let next = with_point(points, now, elapsed, a, b);
            let gone = points.len() + 1 - next.len();
            &&& 0 <= gone <= points.len()
            &&& next.len() <= 300
            &&& next.last() == (HistoryPoint { at: now, a, b })
            &&& forall|i: int| 0 <= i < next.len() - 1 ==> #[trigger] next[i] == points[i + gone]
            &&& forall|i: int|
                0 <= i < gone ==> points.len() - i >= 300 || !(#[trigger] elapsed[i]).le(
                    Seconds { bits: 0x4034_0000_0000_0000 },
                )
            &&& gone < points.len() ==> elapsed[gone].le(Seconds { bits: 0x4034_0000_0000_0000 })
        }),
{
    let from = surplus(points.len() as int);
    lemma_first_recent(elapsed, from);
    lemma_none_recent_before(elapsed, from);
}

proof fn lemma_none_recent_before(elapsed: Seq<Seconds>, from: int)
    requires
        0 <= from <= elapsed.len(),
    ensures
        forall|i: int|
            from <= i < first_recent(elapsed, from) ==> !is_recent(#[trigger] elapsed[i]),
    decreases elapsed.len() - from,
{
    if from < elapsed.len() && !is_recent(elapsed[from]) {
        lemma_none_recent_before(elapsed, from + 1);
    }
}

} // verus!
