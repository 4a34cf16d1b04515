//! The result of analysing one frame of samples.

use vstd::prelude::*;

use crate::level::{Level, ZERO};
use crate::types::BAND_COUNT;

verus! {

/// The energy and the onset of every band.
#[derive(Debug, Clone, Copy)]
pub struct BandAnalysisFrame {
    pub energy: [Level; BAND_COUNT],
    pub onset: [Level; BAND_COUNT],
}

/// A level of zero in every band.
pub open spec fn silent_bands() -> Seq<Level> {
    seq![
        Level { bits: ZERO },
        Level { bits: ZERO },
        Level { bits: ZERO },
        Level { bits: ZERO },
    ]
}

pub fn no_bands() -> (r: [Level; BAND_COUNT])
    ensures
        r@ == silent_bands(),
{
    let zero = Level::from_bits(ZERO);
    let r = [zero, zero, zero, zero];
    assert(r@ =~= silent_bands());
    r
}

impl Default for BandAnalysisFrame {
    fn default() -> (r: BandAnalysisFrame)
        ensures
            r.energy@ == silent_bands(),
            r.onset@ == silent_bands(),
    {
        BandAnalysisFrame { energy: no_bands(), onset: no_bands() }
    }
}

} // verus!
