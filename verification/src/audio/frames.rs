//! Cuts a stream of samples into frames of one size.

use vstd::prelude::*;

use crate::level::Level;

verus! {

/// The samples that do not make a whole frame yet.
#[derive(Debug)]
pub struct FrameBuffer {
    pub samples: Vec<Level>,
    pub frame_size: usize,
}

impl FrameBuffer {
    /// Less than a frame waits.
    pub open spec fn well_formed(self) -> bool {
        self.samples@.len() < self.frame_size
    }

    pub fn new(frame_size: usize) -> (r: FrameBuffer)
        requires
            frame_size > 0,
        ensures
            r.well_formed(),
            r.samples@.len() == 0,
            r.frame_size == frame_size,
    {
        FrameBuffer { samples: Vec::new(), frame_size }
    }

    /// Takes a sample; gives a frame if it is the last of one.
    pub fn push_mono_sample(&mut self, sample: Level) -> (r: Option<Vec<Level>>)
        requires
            old(self).well_formed(),
        ensures
            final(self).well_formed(),
            final(self).frame_size == old(self).frame_size,
            match r {
                Some(frame) => {
                    &&& frame@ == old(self).samples@.push(sample)
                    &&& frame@.len() == old(self).frame_size
                    &&& final(self).samples@.len() == 0
                },
                None => {
                    &&& final(self).samples@ == old(self).samples@.push(sample)
                    &&& old(self).samples@.len() + 1 < old(self).frame_size
                },
            },
    {
        self.samples.push(sample);
        if self.samples.len() < self.frame_size {
            return None;
        }
        let mut frame: Vec<Level> = Vec::new();
        std::mem::swap(&mut frame, &mut self.samples);
        Some(frame)
    }

    /// Takes samples one after the other; gives the frames that they complete.
    pub fn push_all(&mut self, samples: &Vec<Level>) -> (r: Vec<Vec<Level>>)
        requires
            old(self).well_formed(),
        ensures
            final(self).well_formed(),
            final(self).frame_size == old(self).frame_size,
            forall|i: int|
                0 <= i < r@.len() ==> (#[trigger] r@[i])@.len() == old(self).frame_size,
            joined(r@) + final(self).samples@ == old(self).samples@ + samples@,
    {
        let ghost before = self.samples@;
        let ghost size = self.frame_size;
        let mut r: Vec<Vec<Level>> = Vec::new();
        let mut i: usize = 0;
        assert(joined(r@) + self.samples@ =~= before + samples@.take(0));
        while i < samples.len()
            invariant
                self.well_formed(),
                self.frame_size == size,
                i <= samples@.len(),
                forall|j: int| 0 <= j < r@.len() ==> (#[trigger] r@[j])@.len() == size,
                joined(r@) + self.samples@ == before + samples@.take(i as int),
            decreases samples@.len() - i,
        {
            let ghost done = joined(r@);
            let ghost waiting = self.samples@;
            let frame = self.push_mono_sample(samples[i]);
            assert(before + samples@.take(i as int + 1) =~= (before + samples@.take(i as int)).push(
                samples@[i as int],
            ));
            match frame {
                Some(frame) => {
                    let ghost old_r = r@;
                    r.push(frame);
                    assert(r@.drop_last() =~= old_r);
                    assert(joined(r@) =~= done + waiting.push(samples@[i as int]));
                    assert(joined(r@) + self.samples@ =~= (done + waiting).push(
                        samples@[i as int],
                    ));
                },
                None => {
                    assert(done + self.samples@ =~= (done + waiting).push(samples@[i as int]));
                },
            }
            i += 1;
        }
        assert(samples@.take(i as int) =~= samples@);
        r
    }

    /// Takes silence.
    pub fn push_silent_frames(&mut self, count: usize) -> (r: Vec<Vec<Level>>)
        requires
            old(self).well_formed(),
        ensures
            final(self).well_formed(),
            final(self).frame_size == old(self).frame_size,
            forall|i: int|
                0 <= i < r@.len() ==> (#[trigger] r@[i])@.len() == old(self).frame_size,
            joined(r@) + final(self).samples@ == old(self).samples@ + Seq::new(
                count as nat,
                |i: int| Level { bits: crate::level::ZERO },
            ),
    {
        let mut silence: Vec<Level> = Vec::new();
        while silence.len() < count
            invariant
                silence@.len() <= count,
                forall|i: int|
                    0 <= i < silence@.len() ==> #[trigger] silence@[i] == (Level {
                        bits: crate::level::ZERO,
                    }),
            decreases count - silence@.len(),
        {
            silence.push(Level::from_bits(crate::level::ZERO));
        }
        assert(silence@ =~= Seq::new(count as nat, |i: int| Level { bits: crate::level::ZERO }));
        self.push_all(&silence)
    }
}

/// The samples of frames, one frame after the other.
pub open spec fn joined(frames: Seq<Vec<Level>>) -> Seq<Level>
    decreases frames.len(),
{
    if frames.len() == 0 {
        seq![]
    } else {
        joined(frames.drop_last()) + frames.last()@
    }
}

/// Frames of one size stand one after the other: every sample of every frame is
/// found at its place.
pub proof fn law_joined_frames_keep_their_samples(
    frames: Seq<Vec<Level>>,
    size: nat,
    k: int,
    j: int,
)
    requires
        forall|i: int| 0 <= i < frames.len() ==> (#[trigger] frames[i])@.len() == size,
        0 <= k < frames.len(),
        0 <= j < size,
    ensures
        joined(frames).len() == frames.len() * size,
        0 <= k * size + j < joined(frames).len(),
        joined(frames)[k * size + j] == frames[k]@[j],
    decreases frames.len(),
{
    let t = frames.drop_last();
    let n = t.len() as int;
    assert forall|i: int| 0 <= i < t.len() implies (#[trigger] t[i])@.len() == size by {
        assert(t[i] == frames[i]);
    }
    assert(frames[n]@.len() == size);
    lemma_joined_len(t, size);
    assert((n + 1) * size == n * size + size) by (nonlinear_arith);
    if k < n {
        law_joined_frames_keep_their_samples(t, size, k, j);
        assert(t[k] == frames[k]);
    } else {
        assert(frames.last() == frames[k]);
    }
}

proof fn lemma_joined_len(frames: Seq<Vec<Level>>, size: nat)
    requires
        forall|i: int| 0 <= i < frames.len() ==> (#[trigger] frames[i])@.len() == size,
    ensures
        joined(frames).len() == frames.len() * size,
    decreases frames.len(),
{
    if frames.len() > 0 {
        let t = frames.drop_last();
        assert forall|i: int| 0 <= i < t.len() implies (#[trigger] t[i])@.len() == size by {
            assert(t[i] == frames[i]);
        }
        lemma_joined_len(t, size);
        assert(frames[frames.len() - 1]@.len() == size);
        assert(frames.len() * size == t.len() * size + size) by (nonlinear_arith)
            requires
                frames.len() == t.len() + 1,
        ;
    } else {
        assert(frames.len() * size == 0) by (nonlinear_arith)
            requires
                frames.len() == 0,
        ;
    }
}

} // verus!
