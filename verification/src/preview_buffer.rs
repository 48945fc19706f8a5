//! The shared preview buffer: an append-only sequence of `PreviewSample`.
//!
//! One logical writer (the player's decode loop) appends; concurrent readers
//! take point-in-time snapshots. The callers hold any lock only for the
//! duration of an `append` or `snapshot`, never across windowing math; the
//! lock itself lives outside the verified core. The buffer never shrinks and
//! never reorders: index `i` refers to the same sample forever once written.

use vstd::prelude::*;

use crate::sample::PreviewSample;

verus! {

/// Append-only, stably addressed sequence of preview samples for one track.
pub struct PreviewBuffer {
    samples: Vec<PreviewSample>,
}

impl PreviewBuffer {
    /// The buffer as a mathematical sequence of samples.
    pub closed spec fn view(&self) -> Seq<PreviewSample> {
        self.samples@
    }

    /// Builds the empty buffer a fresh track starts with.
    pub fn new() -> (r: PreviewBuffer)
        ensures
            r@ == Seq::<PreviewSample>::empty(),
    {
        PreviewBuffer { samples: Vec::new() }
    }

    /// Number of samples appended so far.
    pub fn len(&self) -> (r: usize)
        ensures
            r == self@.len(),
    {
        self.samples.len()
    }

    /// Reads the sample at index `i`; stable: the same index always yields
    /// the same sample once written.
    pub fn get(&self, i: usize) -> (r: PreviewSample)
        requires
            i < self@.len(),
        ensures
            r == self@[i as int],
    {
        self.samples[i]
    }

    /// Adds the given samples at the tail, in order; never reorders or
    /// removes what was already written.
    pub fn append(&mut self, samples: &Vec<PreviewSample>)
        ensures
            final(self)@ == old(self)@ + samples@,
    {
        let mut i: usize = 0;
        while i < samples.len()
            invariant
                i <= samples@.len(),
                self@ == old(self)@ + samples@.take(i as int),
            decreases samples@.len() - i,
        {
            self.samples.push(samples[i]);
            i = i + 1;
            proof {
                assert(samples@.take(i as int) =~= samples@.take(i - 1).push(samples@[i - 1]));
                assert(self@ =~= old(self)@ + samples@.take(i as int));
            }
        }
        proof {
            assert(samples@.take(samples@.len() as int) =~= samples@);
        }
    }

    /// Read-only view of the underlying storage, for window math inside
    /// the library that wants no extra copy.
    pub fn as_vec(&self) -> (r: &Vec<PreviewSample>)
        ensures
            r@ == self@,
    {
        &self.samples
    }

    /// Returns a point-in-time copy of the whole buffer, so callers can
    /// compute windows without holding any lock during the arithmetic.
    pub fn snapshot(&self) -> (r: Vec<PreviewSample>)
        ensures
            r@ == self@,
    {
        let mut out: Vec<PreviewSample> = Vec::new();
        let mut i: usize = 0;
        while i < self.samples.len()
            invariant
                i <= self.samples@.len(),
                out@ == self.samples@.take(i as int),
            decreases self.samples@.len() - i,
        {
            out.push(self.samples[i]);
            i = i + 1;
            proof {
                assert(self.samples@.take(i as int) =~= self.samples@.take(i - 1).push(
                    self.samples@[i - 1],
                ));
            }
        }
        proof {
            assert(self.samples@.take(self.samples@.len() as int) =~= self.samples@);
        }
        out
    }
}

impl Default for PreviewBuffer {
    /// The empty buffer.
    fn default() -> (r: PreviewBuffer)
        ensures
            r@ == Seq::<PreviewSample>::empty(),
    {
        PreviewBuffer::new()
    }
}

} // verus!
