//! The shared wavetable: one band-limited periodic waveform, computed once
//! at startup and read by every oscillator.

use vstd::prelude::*;

verus! {

/// Number of samples in the shared waveform table.
pub const TABLE_LEN: usize = 2048;

/// The triangle waveform at table position `i`: four linear quarter ramps,
/// peaking at `1.0` and `-1.0` in fixed point (`65536 / 512 == 128` per step).
pub open spec fn tri_val(i: int) -> int {
    if i < 512 {
        i * 128
    } else if i < 1536 {
        65536 - (i - 512) * 128
    } else {
        (i - 1536) * 128 - 65536
    }
}

/// Every triangle sample lies within `[-1, 1]` in fixed point.
pub proof fn lemma_tri_val_range(i: int)
    requires
        0 <= i < 2048,
    ensures
        -65536 <= tri_val(i) <= 65536,
{
}

/// The shared, read-only waveform table.
pub struct Wavetable {
    pub samples: Vec<i64>,
}

impl Wavetable {
    /// A usable table: full length, every sample within `[-1, 1]`.
    pub open spec fn wf(&self) -> bool {
        &&& self.samples@.len() == 2048
        &&& forall|i: int| 0 <= i < 2048 ==> -65536 <= #[trigger] self.samples@[i] <= 65536
    }

    /// Populate the table with one cycle of a triangle wave.
    pub fn triangle() -> (t: Wavetable)
        ensures
            t.wf(),
            forall|i: int| 0 <= i < 2048 ==> #[trigger] t.samples@[i] == tri_val(i),
    {
        let mut samples: Vec<i64> = Vec::new();
        let mut i: usize = 0;
        while i < 2048
            invariant
                i <= 2048,
                samples@.len() == i,
                forall|j: int| 0 <= j < i ==> #[trigger] samples@[j] == tri_val(j),
            decreases 2048 - i,
        {
            let v: i64 = if i < 512 {
                (i as i64) * 128
            } else if i < 1536 {
                65536 - ((i as i64) - 512) * 128
            } else {
                ((i as i64) - 1536) * 128 - 65536
            };
            samples.push(v);
            i = i + 1;
        }
        proof {
            assert forall|i: int| 0 <= i < 2048 implies -65536 <= #[trigger] samples@[i] <= 65536 by {
                lemma_tri_val_range(i);
            }
        }
        Wavetable { samples }
    }
}

} // verus!
