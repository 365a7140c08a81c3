use vstd::prelude::*;
use crate::Error;
use crate::detect::{
    classify_frames, detect_transitions, lemma_segments_ordered, pair_segments, spec_classify,
    spec_ends, spec_starts, spec_widen_merge, widen_and_merge,
};
use crate::fcpxml::{spec_basename, Fcp};
use crate::loudness::{frame_loudness, spec_frame_mean, spec_max};

verus! {

/// The per-frame mean loudness sequence of a sample stream split into `n`
/// equal groups (the remainder beyond `n * (len / n)` is discarded).
pub open spec fn spec_means(samples: Seq<u64>, n: usize) -> Seq<u64>
    recommends
        n >= 1,
{
    Seq::new(
        n as nat,
        |i: int| spec_frame_mean(samples, samples.len() as int / n as int, i) as u64,
    )
}

/// The global peak magnitude over the samples assigned to frames.
pub open spec fn spec_peak(samples: Seq<u64>, n: usize) -> u64
    recommends
        n >= 1,
{
    spec_max(samples.subrange(0, (samples.len() as int / n as int) * n)) as u64
}

/// The raw detected segments: the positionally paired starts and ends of
/// the transition scan over the silent/loud classification.
pub open spec fn spec_raw_segments(means: Seq<u64>, peak: u64, num: u64, den: u64) -> Seq<
    (usize, usize),
>
    recommends
        means.len() > 0,
{
    let loud = spec_classify(means, peak, num, den);
    Seq::new(spec_starts(loud).len(), |k: int| (spec_starts(loud)[k], spec_ends(loud)[k]))
}

/// The final segment list of the whole analysis: detection over the
/// per-frame means against the peak-relative threshold `num / den`, then
/// one margin widening pass with overlap merging.
pub open spec fn spec_pipeline_segments(
    samples: Seq<u64>,
    n: usize,
    num: u64,
    den: u64,
    margin: usize,
) -> Seq<(usize, usize)>
    recommends
        n >= 1,
{
    spec_widen_merge(
        spec_raw_segments(spec_means(samples, n), spec_peak(samples, n), num, den),
        margin,
        n,
    )
}

/// The whole analysis pipeline: samples to timeline.
///
/// Succeeds exactly when there is at least one video frame and at least as
/// many samples as frames; `video_frame_count == 0` fails with `EmptyInput`
/// and fewer samples than frames fails with `InsufficientSamples`.  On
/// success the timeline carries the source reference, dimensions, frame
/// rate and duration as given, and exactly the detected, widened and
/// merged segments.
pub fn run_pipeline(
    samples: &Vec<u64>,
    video_frames: usize,
    threshold_num: u64,
    threshold_den: u64,
    frame_margin: usize,
    source_file: String,
    width: u64,
    height: u64,
    frame_rate: u64,
) -> (r: Result<Fcp, Error>)
    ensures
        video_frames == 0 ==> r == Err::<Fcp, Error>(Error::EmptyInput),
        video_frames > 0 && samples@.len() < video_frames ==> r == Err::<Fcp, Error>(
            Error::InsufficientSamples,
        ),
        video_frames > 0 && samples@.len() >= video_frames ==> (r matches Ok(fcp) && {
            let segs = spec_pipeline_segments(
                samples@,
                video_frames,
                threshold_num,
                threshold_den,
                frame_margin,
            );
            &&& fcp.source_file == source_file
            &&& fcp.name@ == spec_basename(source_file@)
            &&& fcp.dimensions == (width, height)
            &&& fcp.frame_rate == frame_rate
            &&& fcp.duration == video_frames as u64
            &&& fcp.clips@.len() == segs.len()
            &&& forall|k: int|
                0 <= k < segs.len() ==> (#[trigger] fcp.clips@[k]).0 == segs[k].0
                    && fcp.clips@[k].1 == segs[k].1
            &&& fcp.wf()
        }),
{
    let (means, peak) = match frame_loudness(samples, video_frames) {
        Ok(p) => p,
        Err(e) => {
            return Err(e);
        },
    };
    proof {
        assert(means@ =~= spec_means(samples@, video_frames));
    }
    let loud = classify_frames(&means, peak, threshold_num, threshold_den);
    let (starts, ends) = detect_transitions(&loud);
    proof {
        lemma_segments_ordered(loud@);
    }
    let raw = pair_segments(&starts, &ends);
    proof {
        assert(raw@ =~= spec_raw_segments(means@, peak, threshold_num, threshold_den));
    }
    let merged = widen_and_merge(&raw, frame_margin, video_frames);
    let fcp = Fcp::new(
        source_file,
        (width, height),
        frame_rate,
        video_frames as u64,
        merged,
    );
    Ok(fcp)
}

} // verus!
