use vstd::prelude::*;
use vstd::arithmetic::div_mod::{
    lemma_div_by_multiple, lemma_div_is_ordered, lemma_div_non_zero, lemma_fundamental_div_mod,
};
use vstd::arithmetic::mul::{lemma_mul_inequality, lemma_mul_is_distributive_add_other_way};
use crate::Error;

verus! {

/// The sum of a magnitude sequence.
pub open spec fn spec_sum(s: Seq<u64>) -> int
    decreases s.len(),
{
    if s.len() == 0 {
        0
    } else {
        spec_sum(s.drop_last()) + s.last()
    }
}

/// The largest magnitude in a sequence; zero for the empty sequence
/// (magnitudes are non-negative, so zero is a neutral floor).
pub open spec fn spec_max(s: Seq<u64>) -> int
    decreases s.len(),
{
    if s.len() == 0 {
        0
    } else if s.last() > spec_max(s.drop_last()) {
        s.last() as int
    } else {
        spec_max(s.drop_last())
    }
}

/// The samples assigned to frame `i`: the `i`-th contiguous group of `g`.
pub open spec fn spec_group(samples: Seq<u64>, g: int, i: int) -> Seq<u64> {
    samples.subrange(i * g, i * g + g)
}

/// The mean loudness of frame `i`: the integer mean of its group.
pub open spec fn spec_frame_mean(samples: Seq<u64>, g: int, i: int) -> int {
    spec_sum(spec_group(samples, g, i)) / g
}

proof fn lemma_sum_bounds(s: Seq<u64>)
    ensures
        0 <= spec_sum(s) <= s.len() * u64::MAX,
    decreases s.len(),
{
    if s.len() == 0 {
    } else {
        lemma_sum_bounds(s.drop_last());
        assert((s.len() - 1) * u64::MAX + u64::MAX == s.len() * u64::MAX) by (nonlinear_arith);
    }
}

/// Reduces the magnitude sequence to one mean loudness per video frame,
/// together with the global peak magnitude.
///
/// With `g = samples.len() / video_frames`, the sequence is partitioned
/// into `video_frames` contiguous groups of `g` samples; the remainder
/// beyond `g * video_frames` is discarded.  Frame `i` gets the mean of
/// group `i`; the peak is the running maximum over all groups.
pub fn frame_loudness(samples: &Vec<u64>, video_frames: usize) -> (r: Result<
    (Vec<u64>, u64),
    Error,
>)
    ensures
        video_frames == 0 ==> r == Err::<(Vec<u64>, u64), Error>(Error::EmptyInput),
        video_frames > 0 && samples@.len() < video_frames ==> r == Err::<
            (Vec<u64>, u64),
            Error,
        >(Error::InsufficientSamples),
        video_frames > 0 && samples@.len() >= video_frames ==> (r matches Ok(p) && {
            let g = samples@.len() as int / video_frames as int;
            &&& p.0@.len() == video_frames
            &&& forall|i: int|
                0 <= i < video_frames ==> p.0@[i] == spec_frame_mean(samples@, g, i)
            &&& p.1 == spec_max(samples@.subrange(0, g * video_frames))
        }),
{
    if video_frames == 0 {
        return Err(Error::EmptyInput);
    }
    let n = video_frames;
    let slen = samples.len();
    if slen < n {
        return Err(Error::InsufficientSamples);
    }
    let g = slen / n;
    proof {
        lemma_fundamental_div_mod(slen as int, n as int);
        assert(n * g <= slen);
        lemma_div_non_zero(slen as int, n as int);
    }
    let mut means: Vec<u64> = Vec::new();
    let mut peak: u64 = 0;
    let mut i: usize = 0;
    while i < n
        invariant
            0 < n <= slen,
            slen == samples@.len(),
            g == slen as int / n as int,
            1 <= g,
            n * g <= slen,
            i <= n,
            means@.len() == i,
            forall|k: int| 0 <= k < i ==> means@[k] == spec_frame_mean(samples@, g as int, k),
            peak == spec_max(samples@.subrange(0, i as int * g as int)),
        decreases n - i,
    {
        proof {
            lemma_mul_inequality(i as int + 1, n as int, g as int);
            assert((i + 1) * g <= n * g);
            lemma_mul_is_distributive_add_other_way(g as int, i as int, 1);
            assert((i + 1) * g == i * g + g);
        }
        let base = i * g;
        let mut sum: u128 = 0;
        let mut j: usize = 0;
        while j < g
            invariant
                0 < n <= slen,
                slen == samples@.len(),
                1 <= g,
                i < n,
                base == i as int * g as int,
                base + g <= slen,
                j <= g,
                sum == spec_sum(samples@.subrange(base as int, base as int + j as int)),
                sum <= j * u64::MAX,
                peak == spec_max(samples@.subrange(0, base as int + j as int)),
            decreases g - j,
        {
            let v = samples[base + j];
            proof {
                let a = base as int;
                let pre = samples@.subrange(a, a + j as int);
                let post = samples@.subrange(a, a + j as int + 1);
                assert(post.drop_last() =~= pre);
                let p0 = samples@.subrange(0, a + j as int);
                let p1 = samples@.subrange(0, a + j as int + 1);
                assert(p1.drop_last() =~= p0);
                assert(sum + v <= (j + 1) * u64::MAX) by (nonlinear_arith)
                    requires
                        sum <= j * u64::MAX,
                        v <= u64::MAX,
                        0 <= j,
                ;
                assert((j + 1) * u64::MAX < u128::MAX) by (nonlinear_arith)
                    requires
                        0 <= j < u64::MAX,
                ;
            }
            sum = sum + v as u128;
            if v > peak {
                peak = v;
            }
            j = j + 1;
        }
        proof {
            let group = spec_group(samples@, g as int, i as int);
            assert(samples@.subrange(base as int, base as int + g as int) =~= group);
            lemma_sum_bounds(group);
            lemma_div_is_ordered(spec_sum(group), g as int * u64::MAX, g as int);
            lemma_div_by_multiple(u64::MAX as int, g as int);
            assert(spec_sum(group) / g as int <= u64::MAX);
        }
        let mean = (sum / g as u128) as u64;
        proof {
            let group = spec_group(samples@, g as int, i as int);
            assert(sum == spec_sum(group));
            assert(sum as int / g as int == spec_sum(group) / g as int);
            assert(mean == spec_frame_mean(samples@, g as int, i as int));
        }
        means.push(mean);
        i = i + 1;
    }
    Ok((means, peak))
}

} // verus!
