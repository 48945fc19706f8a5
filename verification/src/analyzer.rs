//! The analyzer: a pure transform from one decoded packet's per-frame band
//! energies to a fixed number of preview samples. Whatever a packet's raw
//! frame count, the output holds exactly `PREVIEW_SAMPLES_PER_PACKET`
//! samples, so buffer indices map linearly to packet positions.

use vstd::prelude::*;

use vstd::arithmetic::div_mod::{lemma_div_pos_is_pos, lemma_multiply_divide_lt};
use vstd::arithmetic::mul::{
    lemma_mul_inequality, lemma_mul_strict_inequality, lemma_mul_upper_bound,
};

use crate::sample::{PreviewSample, PREVIEW_SAMPLES_PER_PACKET};

verus! {

/// The downsampled form of one packet: output slot `i` carries the frame at
/// the start of its share of the packet, `frames[i * len / K]` for the `K`
/// fixed output slots; an empty packet yields zero samples.
pub open spec fn downsample_spec(frames: Seq<PreviewSample>) -> Seq<PreviewSample> {
    Seq::new(
        PREVIEW_SAMPLES_PER_PACKET as nat,
        |i: int|
            {
                if frames.len() == 0 {
                    PreviewSample::zero_spec()
                } else {
                    frames[(i * frames.len()) / (PREVIEW_SAMPLES_PER_PACKET as int)]
                }
            },
    )
}

/// Downsamples one packet's per-frame band energies by decimation to
/// exactly `PREVIEW_SAMPLES_PER_PACKET` samples. A pure function of its
/// input: the same frames always give the same output.
pub fn downsample(frames: &Vec<PreviewSample>) -> (r: Vec<PreviewSample>)
    ensures
        r@.len() == PREVIEW_SAMPLES_PER_PACKET,
        r@ == downsample_spec(frames@),
{
    let n = frames.len();
    let mut out: Vec<PreviewSample> = Vec::new();
    let mut i: usize = 0;
    while i < PREVIEW_SAMPLES_PER_PACKET
        invariant
            i <= PREVIEW_SAMPLES_PER_PACKET,
            out@.len() == i as int,
            n == frames@.len(),
            forall|k: int| 0 <= k < i ==> out@[k] == downsample_spec(frames@)[k],
        decreases PREVIEW_SAMPLES_PER_PACKET - i,
    {
        let s: PreviewSample;
        if n == 0 {
            s = PreviewSample::zero();
        } else {
            let k128 = PREVIEW_SAMPLES_PER_PACKET as u128;
            proof {
                lemma_mul_upper_bound(
                    i as int,
                    PREVIEW_SAMPLES_PER_PACKET as int,
                    n as int,
                    u64::MAX as int,
                );
            }
            let idx128: u128 = (i as u128) * (n as u128) / k128;
            proof {
                let ii = i as int;
                let nn = n as int;
                let kk = PREVIEW_SAMPLES_PER_PACKET as int;
                assert(ii * nn < kk * nn) by {
                    lemma_mul_strict_inequality(ii, kk, nn);
                }
                lemma_multiply_divide_lt(ii * nn, kk, nn);
                assert(ii * nn >= 0) by {
                    lemma_mul_inequality(0, ii, nn);
                }
                lemma_div_pos_is_pos(ii * nn, kk);
            }
            let idx: usize = idx128 as usize;
            s = frames[idx];
        }
        proof {
            assert(downsample_spec(frames@)[i as int] == s);
        }
        out.push(s);
        i = i + 1;
    }
    proof {
        assert(out@ =~= downsample_spec(frames@));
    }
    out
}

} // verus!
