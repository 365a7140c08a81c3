use autocut::detect::{classify_frames, detect_transitions, pair_segments, widen_and_merge};
use autocut::fcpxml::Fcp;
use autocut::loudness::frame_loudness;
use autocut::numfmt::u64_to_string;
use autocut::pipeline::run_pipeline;
use autocut::Error;

// 4 video frames, 10 samples per frame, frame loudness (in thousandths)
// [10, 900, 850, 20]: every sample of a frame carries the frame's value.
fn scenario_samples() -> Vec<u64> {
    let mut samples: Vec<u64> = Vec::new();
    for &level in &[10u64, 900, 850, 20] {
        for _ in 0..10 {
            samples.push(level);
        }
    }
    samples
}

#[test]
fn scenario_four_frames_single_segment() {
    let samples = scenario_samples();
    let (means, peak) = frame_loudness(&samples, 4).unwrap();
    assert_eq!(means, vec![10, 900, 850, 20]);
    assert_eq!(peak, 900);
    // ratio 0.03 as the rational 3/100: threshold is 27 thousandths
    let loud = classify_frames(&means, peak, 3, 100);
    assert_eq!(loud, vec![false, true, true, false]);
    let (starts, ends) = detect_transitions(&loud);
    assert_eq!(starts, vec![0]);
    assert_eq!(ends, vec![2]);
    let raw = pair_segments(&starts, &ends);
    assert_eq!(raw, vec![(0, 2)]);
}

#[test]
fn scenario_margin_one_widens_and_clamps() {
    // frame_margin = 1 on raw segment (0, 2) over 4 frames: clamped at 0,
    // extended at the end to 3.
    let widened = widen_and_merge(&vec![(0, 2)], 1, 4);
    assert_eq!(widened, vec![(0, 3)]);
}

#[test]
fn margin_zero_keeps_segments() {
    let segs = vec![(1, 2), (4, 5)];
    assert_eq!(widen_and_merge(&segs, 0, 6), segs);
}

#[test]
fn margin_merges_overlapping_segments() {
    // (2,3) and (5,6) widened by 1 become (1,4) and (4,7), which overlap
    // and must merge into one segment spanning the union.
    assert_eq!(widen_and_merge(&vec![(2, 3), (5, 6)], 1, 10), vec![(1, 7)]);
}

#[test]
fn margin_merges_segments_meeting_at_one_frame() {
    // (1,2) and (4,5) widened by 1 become (0,3) and (3,6): they overlap at
    // frame 3 and merge.
    assert_eq!(widen_and_merge(&vec![(1, 2), (4, 5)], 1, 8), vec![(0, 6)]);
}

#[test]
fn adjacent_segments_stay_separate() {
    // (0,2) and (3,5) touch end-to-start but do not overlap: no merge.
    assert_eq!(widen_and_merge(&vec![(0, 2), (3, 5)], 0, 6), vec![(0, 2), (3, 5)]);
}

#[test]
fn classification_is_strict() {
    // peak 1000 with ratio 1/10 puts the threshold at 100; a frame at
    // exactly 100 is silent, one above is loud.
    let loud = classify_frames(&vec![100, 1000, 99, 101], 1000, 1, 10);
    assert_eq!(loud, vec![false, true, false, true]);
}

#[test]
fn leading_loud_frame_opens_segment() {
    let loud = vec![true, false, false];
    let (starts, ends) = detect_transitions(&loud);
    assert_eq!(starts, vec![0]);
    assert_eq!(ends, vec![0]);
}

#[test]
fn all_loud_closes_at_last_frame() {
    let loud = vec![true, true, true];
    let (starts, ends) = detect_transitions(&loud);
    assert_eq!(starts, vec![0]);
    assert_eq!(ends, vec![2]);
}

#[test]
fn all_silent_yields_no_segments() {
    let loud = vec![false, false, false];
    let (starts, ends) = detect_transitions(&loud);
    assert!(starts.is_empty());
    assert!(ends.is_empty());
}

#[test]
fn zero_frames_fails_with_empty_input() {
    let samples = vec![1u64, 2, 3];
    assert_eq!(frame_loudness(&samples, 0), Err(Error::EmptyInput));
    let r = run_pipeline(&samples, 0, 3, 100, 0, "/tmp/a.mp4".to_string(), 1, 1, 1);
    assert!(matches!(r, Err(Error::EmptyInput)));
}

#[test]
fn fewer_samples_than_frames_fails() {
    let samples = vec![1u64, 2, 3];
    assert_eq!(frame_loudness(&samples, 4), Err(Error::InsufficientSamples));
    let r = run_pipeline(&samples, 4, 3, 100, 0, "/tmp/a.mp4".to_string(), 1, 1, 1);
    assert!(matches!(r, Err(Error::InsufficientSamples)));
}

#[test]
fn remainder_samples_are_discarded() {
    // 7 samples over 3 frames: groups of 2, the 7th sample is dropped,
    // so neither the means nor the peak see the value 999.
    let samples = vec![2u64, 4, 6, 8, 10, 12, 999];
    let (means, peak) = frame_loudness(&samples, 3).unwrap();
    assert_eq!(means, vec![3, 7, 11]);
    assert_eq!(peak, 12);
}

#[test]
fn mean_truncates_toward_zero() {
    let samples = vec![1u64, 2];
    let (means, peak) = frame_loudness(&samples, 1).unwrap();
    assert_eq!(means, vec![1]);
    assert_eq!(peak, 2);
}

#[test]
fn pipeline_builds_timeline_from_samples() {
    let samples = scenario_samples();
    let fcp = run_pipeline(
        &samples,
        4,
        3,
        100,
        0,
        "/tmp/video.mp4".to_string(),
        1920,
        1080,
        30,
    )
    .unwrap();
    assert_eq!(fcp.name, "video.mp4");
    assert_eq!(fcp.source_file, "/tmp/video.mp4");
    assert_eq!(fcp.dimensions, (1920, 1080));
    assert_eq!(fcp.frame_rate, 30);
    assert_eq!(fcp.duration, 4);
    assert_eq!(fcp.clips.len(), 1);
    assert_eq!(fcp.clips[0].0, 0);
    assert_eq!(fcp.clips[0].1, 2);
}

#[test]
fn scenario_single_clip_serialization() {
    let fcp = Fcp::new(
        "/tmp/video.mp4".to_string(),
        (1920, 1080),
        30,
        300,
        vec![(0, 2)],
    );
    let xml = fcp.to_xml();
    assert_eq!(xml.matches("<clipitem").count(), 2);
    assert_eq!(xml.matches("<in>0</in>").count(), 2);
    assert_eq!(xml.matches("<out>2</out>").count(), 2);
    assert_eq!(
        xml.matches("<pathurl>file:///tmp/video.mp4</pathurl>").count(),
        2
    );
    assert!(xml.contains("<name>Timeline video.mp4</name>"));
    assert!(xml.contains("<width>1920</width>"));
    assert!(xml.contains("<height>1080</height>"));
    assert!(xml.contains("<duration>300</duration>"));
    assert!(xml.contains("<timebase>30</timebase>"));
}

#[test]
fn empty_timeline_keeps_skeleton() {
    let fcp = Fcp::new("/tmp/video.mp4".to_string(), (640, 480), 25, 100, vec![]);
    let xml = fcp.to_xml();
    assert!(xml.starts_with("<?xml version=\"1.0\" encoding=\"UTF-8\"?>"));
    assert!(!xml.contains("<clipitem"));
    assert_eq!(xml.matches("<track>").count(), 2);
    assert!(xml.contains("<format>"));
    assert!(xml.contains("<samplecharacteristics>"));
    assert!(xml.contains("<pixelaspectratio>square</pixelaspectratio>"));
    assert!(xml.ends_with("</xmeml>"));
}

#[test]
fn clips_pack_back_to_back() {
    // Two segments (0,2) and (5,9): the second clip starts on the packed
    // timeline where the first one's length ends: start 2, end 2 + 4.
    let fcp = Fcp::new(
        "/tmp/video.mp4".to_string(),
        (1920, 1080),
        30,
        20,
        vec![(0, 2), (5, 9)],
    );
    let xml = fcp.to_xml();
    assert_eq!(xml.matches("<clipitem").count(), 4);
    assert_eq!(xml.matches("<start>0</start>").count(), 2);
    assert_eq!(xml.matches("<end>2</end>").count(), 2);
    assert_eq!(xml.matches("<start>2</start>").count(), 2);
    assert_eq!(xml.matches("<end>6</end>").count(), 2);
    assert_eq!(xml.matches("<in>5</in>").count(), 2);
    assert_eq!(xml.matches("<out>9</out>").count(), 2);
}

#[test]
fn basename_without_separator_is_whole_path() {
    let fcp = Fcp::new("clip.mov".to_string(), (1, 1), 1, 1, vec![]);
    assert_eq!(fcp.name, "clip.mov");
}

#[test]
fn decimal_rendering_is_exact() {
    assert_eq!(u64_to_string(0), "0");
    assert_eq!(u64_to_string(7), "7");
    assert_eq!(u64_to_string(42), "42");
    assert_eq!(u64_to_string(108000), "108000");
    assert_eq!(u64_to_string(u64::MAX), "18446744073709551615");
}

#[test]
fn error_messages_name_the_failure() {
    assert_eq!(Error::EmptyInput.message(), "the video stream has no frames");
    assert_eq!(
        Error::InsufficientSamples.message(),
        "fewer audio samples than video frames"
    );
    assert_eq!(
        Error::UnsupportedSampleFormat.message(),
        "unsupported audio sample format"
    );
}
