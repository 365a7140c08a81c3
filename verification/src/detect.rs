use vstd::prelude::*;

verus! {

/// A frame is loud iff its loudness strictly exceeds the threshold
/// `peak * (num / den)`.  The comparison is cross-multiplied, so it is
/// exact: `l > peak * num / den  <==>  l * den > peak * num` for `den > 0`.
pub open spec fn spec_loud(l: u64, peak: u64, num: u64, den: u64) -> bool {
    l * den > peak * num
}

/// The silent/loud classification of every frame.
pub open spec fn spec_classify(means: Seq<u64>, peak: u64, num: u64, den: u64) -> Seq<bool> {
    means.map_values(|l: u64| spec_loud(l, peak, num, den))
}

/// Segment starts discovered once the frame pairs `(t - 1, t)` for `t <= j`
/// have been scanned, including the implicit start at index 0 when frame 0
/// is already loud.  A silent-to-loud transition at pair `t` records the
/// index `t - 1` of the silent frame before the loud run.
pub open spec fn spec_starts_upto(loud: Seq<bool>, j: int) -> Seq<usize>
    recommends
        0 <= j < loud.len(),
    decreases j,
{
    if j <= 0 {
        if loud[0] {
            seq![0usize]
        } else {
            Seq::empty()
        }
    } else {
        spec_starts_upto(loud, j - 1) + if !loud[j - 1] && loud[j] {
            seq![(j - 1) as usize]
        } else {
            Seq::empty()
        }
    }
}

/// Segment ends discovered once the frame pairs `(t - 1, t)` for `t <= j`
/// have been scanned.  A loud-to-silent transition at pair `t` records the
/// index `t - 1` of the last loud frame of the run.
pub open spec fn spec_ends_upto(loud: Seq<bool>, j: int) -> Seq<usize>
    recommends
        0 <= j < loud.len(),
    decreases j,
{
    if j <= 0 {
        Seq::empty()
    } else {
        spec_ends_upto(loud, j - 1) + if loud[j - 1] && !loud[j] {
            seq![(j - 1) as usize]
        } else {
            Seq::empty()
        }
    }
}

/// All segment starts of a classification.
pub open spec fn spec_starts(loud: Seq<bool>) -> Seq<usize>
    recommends
        loud.len() > 0,
{
    spec_starts_upto(loud, loud.len() - 1)
}

/// All segment ends of a classification: the scanned transitions, plus the
/// boundary rule that a run still open at the last frame is closed there.
pub open spec fn spec_ends(loud: Seq<bool>) -> Seq<usize>
    recommends
        loud.len() > 0,
{
    spec_ends_upto(loud, loud.len() - 1) + if loud.last() {
        seq![(loud.len() - 1) as usize]
    } else {
        Seq::empty()
    }
}

proof fn lemma_detect_invariant(loud: Seq<bool>, j: int)
    requires
        1 <= loud.len() <= usize::MAX,
        0 <= j < loud.len(),
    ensures
        ({
            let s = spec_starts_upto(loud, j);
            let e = spec_ends_upto(loud, j);
            let hi: int = if j == 0 {
                0
            } else {
                j - 1
            };
            &&& s.len() == e.len() + (if loud[j] {
                1int
            } else {
                0
            })
            &&& forall|k: int| 0 <= k < s.len() ==> s[k] <= hi
            &&& forall|k: int| 0 <= k < e.len() ==> e[k] <= hi
            &&& forall|k: int| 0 <= k < e.len() ==> s[k] <= e[k]
            &&& forall|k: int| 0 <= k + 1 < s.len() && 0 <= k ==> e[k] < s[k + 1]
        }),
    decreases j,
{
    if j <= 0 {
    } else {
        lemma_detect_invariant(loud, j - 1);
        let s0 = spec_starts_upto(loud, j - 1);
        let e0 = spec_ends_upto(loud, j - 1);
        let s = spec_starts_upto(loud, j);
        let e = spec_ends_upto(loud, j);
        if !loud[j - 1] && loud[j] {
            assert(s =~= s0.push((j - 1) as usize));
            assert(e =~= e0);
        } else if loud[j - 1] && !loud[j] {
            assert(s =~= s0);
            assert(e =~= e0.push((j - 1) as usize));
        } else {
            assert(s =~= s0);
            assert(e =~= e0);
        }
    }
}

/// Law: the transition scan together with the two boundary rules always
/// yields as many segment starts as segment ends, so positional pairing
/// never drops or truncates a segment.
pub proof fn lemma_starts_ends_balanced(loud: Seq<bool>)
    requires
        0 < loud.len() <= usize::MAX,
    ensures
        spec_starts(loud).len() == spec_ends(loud).len(),
{
    lemma_detect_invariant(loud, loud.len() - 1);
    if loud.last() {
    } else {
        assert(spec_ends(loud) =~= spec_ends_upto(loud, loud.len() - 1));
    }
}

/// Law: paired positionally, the detected starts and ends form segments in
/// frame order: every start is at or before its end, consecutive segments
/// do not overlap, and every index lies inside the frame range.
pub proof fn lemma_segments_ordered(loud: Seq<bool>)
    requires
        0 < loud.len() <= usize::MAX,
    ensures
        ({
            let s = spec_starts(loud);
            let e = spec_ends(loud);
            &&& s.len() == e.len()
            &&& forall|k: int| 0 <= k < s.len() ==> s[k] < loud.len() && e[k] < loud.len()
            &&& forall|k: int| 0 <= k < s.len() ==> s[k] <= e[k]
            &&& forall|k: int| 0 <= k + 1 < s.len() && 0 <= k ==> e[k] < s[k + 1]
        }),
{
    lemma_starts_ends_balanced(loud);
    lemma_detect_invariant(loud, loud.len() - 1);
    let s = spec_starts(loud);
    let e = spec_ends(loud);
    let e0 = spec_ends_upto(loud, loud.len() - 1);
    if loud.last() {
        assert(e =~= e0.push((loud.len() - 1) as usize));
    } else {
        assert(e =~= e0);
    }
}

/// Classifies every frame against the global-peak-relative threshold.
/// Frame `i` is loud iff `means[i] * den > peak * num`, which is exactly
/// `means[i] > peak * (num / den)` over the rationals.
pub fn classify_frames(means: &Vec<u64>, peak: u64, num: u64, den: u64) -> (r: Vec<bool>)
    ensures
        r@ == spec_classify(means@, peak, num, den),
{
    let mut r: Vec<bool> = Vec::new();
    let mut i: usize = 0;
    while i < means.len()
        invariant
            i <= means@.len(),
            r@.len() == i,
            forall|k: int| 0 <= k < i ==> r@[k] == spec_loud(means@[k], peak, num, den),
        decreases means@.len() - i,
    {
        let l = means[i];
        proof {
            assert((l as int) * (den as int) <= u128::MAX) by (nonlinear_arith)
                requires
                    l <= u64::MAX,
                    den <= u64::MAX,
            ;
            assert((peak as int) * (num as int) <= u128::MAX) by (nonlinear_arith)
                requires
                    peak <= u64::MAX,
                    num <= u64::MAX,
            ;
        }
        let is_loud = (l as u128) * (den as u128) > (peak as u128) * (num as u128);
        r.push(is_loud);
        i = i + 1;
    }
    proof {
        assert(r@ =~= spec_classify(means@, peak, num, den));
    }
    r
}

/// Walks the consecutive frame pairs and collects segment starts and ends,
/// applying both boundary rules.  The two lists always come out balanced
/// and in frame order.
pub fn detect_transitions(loud: &Vec<bool>) -> (r: (Vec<usize>, Vec<usize>))
    requires
        loud@.len() >= 1,
    ensures
        r.0@ == spec_starts(loud@),
        r.1@ == spec_ends(loud@),
        r.0@.len() == r.1@.len(),
{
    let n = loud.len();
    let mut starts: Vec<usize> = Vec::new();
    let mut ends: Vec<usize> = Vec::new();
    if loud[0] {
        starts.push(0);
    }
    proof {
        assert(starts@ =~= spec_starts_upto(loud@, 0));
        assert(ends@ =~= spec_ends_upto(loud@, 0));
    }
    let mut j: usize = 1;
    while j < n
        invariant
            1 <= j <= n,
            n == loud@.len(),
            starts@ == spec_starts_upto(loud@, j - 1),
            ends@ == spec_ends_upto(loud@, j - 1),
        decreases n - j,
    {
        if !loud[j - 1] && loud[j] {
            starts.push(j - 1);
        } else if loud[j - 1] && !loud[j] {
            ends.push(j - 1);
        }
        proof {
            assert(starts@ =~= spec_starts_upto(loud@, j as int));
            assert(ends@ =~= spec_ends_upto(loud@, j as int));
        }
        j = j + 1;
    }
    if loud[n - 1] {
        ends.push(n - 1);
    }
    proof {
        assert(starts@ =~= spec_starts(loud@));
        assert(ends@ =~= spec_ends(loud@));
        lemma_starts_ends_balanced(loud@);
    }
    (starts, ends)
}

/// Pairs the start and end lists positionally: `segment[k] = (starts[k], ends[k])`.
pub fn pair_segments(starts: &Vec<usize>, ends: &Vec<usize>) -> (r: Vec<(usize, usize)>)
    requires
        starts@.len() == ends@.len(),
    ensures
        r@.len() == starts@.len(),
        forall|k: int| 0 <= k < r@.len() ==> r@[k] == (starts@[k], ends@[k]),
{
    let mut r: Vec<(usize, usize)> = Vec::new();
    let mut i: usize = 0;
    while i < starts.len()
        invariant
            i <= starts@.len(),
            starts@.len() == ends@.len(),
            r@.len() == i,
            forall|k: int| 0 <= k < i ==> r@[k] == (starts@[k], ends@[k]),
        decreases starts@.len() - i,
    {
        r.push((starts[i], ends[i]));
        i = i + 1;
    }
    r
}

/// Every segment's start is at or before its end.
pub open spec fn seg_ordered_each(segs: Seq<(usize, usize)>) -> bool {
    forall|k: int| 0 <= k < segs.len() ==> (#[trigger] segs[k]).0 <= segs[k].1
}

/// Segments are in frame order and pairwise disjoint.
pub open spec fn seg_wf(segs: Seq<(usize, usize)>) -> bool {
    &&& seg_ordered_each(segs)
    &&& forall|k: int| 0 <= k + 1 < segs.len() && 0 <= k ==> (#[trigger] segs[k]).1 < segs[k + 1].0
}

/// Every segment lies inside the frame range `0 .. n`.
pub open spec fn seg_bounded(segs: Seq<(usize, usize)>, n: usize) -> bool {
    forall|k: int| 0 <= k < segs.len() ==> (#[trigger] segs[k]).1 < n
}

/// One segment widened by the margin on both sides, clamped to `[0, n - 1]`.
pub open spec fn spec_widen1(c: (usize, usize), m: usize, n: usize) -> (usize, usize)
    recommends
        n >= 1,
{
    (
        if c.0 >= m {
            (c.0 - m) as usize
        } else {
            0usize
        },
        if c.1 + m < n {
            (c.1 + m) as usize
        } else {
            (n - 1) as usize
        },
    )
}

/// Every segment widened by the margin.
pub open spec fn spec_widen(segs: Seq<(usize, usize)>, m: usize, n: usize) -> Seq<(usize, usize)> {
    segs.map_values(|c: (usize, usize)| spec_widen1(c, m, n))
}

/// Left fold that merges each segment into the accumulator, fusing it with
/// the last accumulated segment whenever the two overlap: the fused segment
/// spans the union of the two.
pub open spec fn spec_merge_rec(acc: Seq<(usize, usize)>, rest: Seq<(usize, usize)>) -> Seq<
    (usize, usize),
>
    decreases rest.len(),
{
    if rest.len() == 0 {
        acc
    } else {
        let c = rest[0];
        if acc.len() > 0 && c.0 <= acc.last().1 {
            let l = acc.last();
            let fused = (
                l.0,
                if c.1 > l.1 {
                    c.1
                } else {
                    l.1
                },
            );
            spec_merge_rec(acc.update(acc.len() - 1, fused), rest.drop_first())
        } else {
            spec_merge_rec(acc.push(c), rest.drop_first())
        }
    }
}

/// Merging a segment list from an empty accumulator.
pub open spec fn spec_merge(segs: Seq<(usize, usize)>) -> Seq<(usize, usize)> {
    spec_merge_rec(Seq::empty(), segs)
}

/// The whole widening pass: widen every segment once, then merge overlaps.
pub open spec fn spec_widen_merge(segs: Seq<(usize, usize)>, m: usize, n: usize) -> Seq<
    (usize, usize),
> {
    spec_merge(spec_widen(segs, m, n))
}

proof fn lemma_merge_rec_wf(acc: Seq<(usize, usize)>, rest: Seq<(usize, usize)>, n: usize)
    requires
        seg_wf(acc),
        seg_bounded(acc, n),
        forall|k: int|
            0 <= k < rest.len() ==> (#[trigger] rest[k]).0 <= rest[k].1 && rest[k].1 < n,
    ensures
        seg_wf(spec_merge_rec(acc, rest)),
        seg_bounded(spec_merge_rec(acc, rest), n),
    decreases rest.len(),
{
    if rest.len() == 0 {
    } else {
        let c = rest[0];
        let rest2 = rest.drop_first();
        assert(forall|k: int|
            0 <= k < rest2.len() ==> (#[trigger] rest2[k]).0 <= rest2[k].1 && rest2[k].1 < n);
        if acc.len() > 0 && c.0 <= acc.last().1 {
            let l = acc.last();
            let fused = (
                l.0,
                if c.1 > l.1 {
                    c.1
                } else {
                    l.1
                },
            );
            let acc2 = acc.update(acc.len() - 1, fused);
            assert(seg_wf(acc2));
            assert(seg_bounded(acc2, n));
            lemma_merge_rec_wf(acc2, rest2, n);
        } else {
            let acc2 = acc.push(c);
            assert(seg_wf(acc2));
            assert(seg_bounded(acc2, n));
            lemma_merge_rec_wf(acc2, rest2, n);
        }
    }
}

proof fn lemma_merge_rec_noop(acc: Seq<(usize, usize)>, rest: Seq<(usize, usize)>)
    requires
        seg_wf(acc),
        seg_wf(rest),
        acc.len() > 0 && rest.len() > 0 ==> acc.last().1 < rest[0].0,
    ensures
        spec_merge_rec(acc, rest) == acc + rest,
    decreases rest.len(),
{
    if rest.len() == 0 {
        assert(acc + rest =~= acc);
    } else {
        let c = rest[0];
        let rest2 = rest.drop_first();
        let acc2 = acc.push(c);
        assert(seg_wf(acc2));
        assert(seg_wf(rest2));
        assert(acc2.len() > 0 && rest2.len() > 0 ==> acc2.last().1 < rest2[0].0);
        lemma_merge_rec_noop(acc2, rest2);
        assert(acc2 + rest2 =~= acc + rest);
    }
}

/// Law: merging is idempotent.  Merging a list whose segments each start at
/// or before their end yields a well-formed, disjoint list, and merging a
/// well-formed disjoint list changes nothing.
pub proof fn lemma_merge_idempotent(segs: Seq<(usize, usize)>, n: usize)
    requires
        forall|k: int|
            0 <= k < segs.len() ==> (#[trigger] segs[k]).0 <= segs[k].1 && segs[k].1 < n,
    ensures
        spec_merge(spec_merge(segs)) == spec_merge(segs),
{
    lemma_merge_rec_wf(Seq::empty(), segs, n);
    lemma_merge_rec_noop(Seq::empty(), spec_merge(segs));
    assert(Seq::empty() + spec_merge(segs) =~= spec_merge(segs));
}

/// Law: with no margin, the widening pass leaves a well-formed, disjoint,
/// bounded segment list exactly as it is — clamping never moves a segment
/// that already lies inside `[0, n - 1]`.
pub proof fn lemma_widen_merge_zero_margin(segs: Seq<(usize, usize)>, n: usize)
    requires
        n >= 1,
        seg_wf(segs),
        seg_bounded(segs, n),
    ensures
        spec_widen_merge(segs, 0, n) == segs,
{
    assert(spec_widen(segs, 0, n) =~= segs);
    lemma_merge_rec_noop(Seq::empty(), segs);
    assert(Seq::empty() + segs =~= segs);
}

/// Law: the widening pass widens each raw segment exactly once.  Its output
/// is well-formed, disjoint and clamped to `[0, n - 1]`, and handing that
/// output back through the pass with no further margin reproduces it
/// unchanged.  (Re-applying a non-zero margin widens again by that margin
/// away from the clip limits; only the clamped edges stay put.)
pub proof fn lemma_widen_merge_fixed_under_no_margin(
    segs: Seq<(usize, usize)>,
    m: usize,
    n: usize,
)
    requires
        n >= 1,
        forall|k: int|
            0 <= k < segs.len() ==> (#[trigger] segs[k]).0 <= segs[k].1 && segs[k].1 < n,
    ensures
        seg_wf(spec_widen_merge(segs, m, n)),
        seg_bounded(spec_widen_merge(segs, m, n), n),
        spec_widen_merge(spec_widen_merge(segs, m, n), 0, n) == spec_widen_merge(segs, m, n),
{
    let w = spec_widen(segs, m, n);
    assert(forall|k: int| 0 <= k < w.len() ==> (#[trigger] w[k]).0 <= w[k].1 && w[k].1 < n);
    lemma_merge_rec_wf(Seq::empty(), w, n);
    lemma_widen_merge_zero_margin(spec_widen_merge(segs, m, n), n);
}

/// Widens every raw segment by `frame_margin` frames on each side, clamped
/// to the frame range, then merges any segments the widening made overlap.
pub fn widen_and_merge(segs: &Vec<(usize, usize)>, frame_margin: usize, video_frames: usize) -> (r:
    Vec<(usize, usize)>)
    requires
        video_frames >= 1,
        forall|k: int|
            0 <= k < segs@.len() ==> (#[trigger] segs@[k]).0 <= segs@[k].1 && segs@[k].1
                < video_frames,
    ensures
        r@ == spec_widen_merge(segs@, frame_margin, video_frames),
        seg_wf(r@),
        seg_bounded(r@, video_frames),
{
    let n = video_frames;
    let m = frame_margin;
    let mut out: Vec<(usize, usize)> = Vec::new();
    let mut i: usize = 0;
    proof {
        assert(spec_widen(segs@, m, n).skip(0) =~= spec_widen(segs@, m, n));
    }
    while i < segs.len()
        invariant
            n >= 1,
            n == video_frames,
            m == frame_margin,
            i <= segs@.len(),
            forall|k: int|
                0 <= k < segs@.len() ==> (#[trigger] segs@[k]).0 <= segs@[k].1 && segs@[k].1 < n,
            seg_wf(out@),
            seg_bounded(out@, n),
            spec_merge_rec(out@, spec_widen(segs@, m, n).skip(i as int)) == spec_widen_merge(
                segs@,
                m,
                n,
            ),
        decreases segs@.len() - i,
    {
        let c = segs[i];
        let ws = if c.0 >= m {
            c.0 - m
        } else {
            0
        };
        let we = if n - 1 - c.1 <= m {
            n - 1
        } else {
            c.1 + m
        };
        proof {
            assert((ws, we) == spec_widen1(c, m, n));
        }
        let ghost old_out = out@;
        let olen = out.len();
        if olen > 0 && ws <= out[olen - 1].1 {
            let last = out[olen - 1];
            let fused = (
                last.0,
                if we > last.1 {
                    we
                } else {
                    last.1
                },
            );
            out.set(olen - 1, fused);
        } else {
            out.push((ws, we));
        }
        proof {
            let w = spec_widen(segs@, m, n);
            assert(w[i as int] == spec_widen1(segs@[i as int], m, n));
            assert(w.skip(i as int)[0] == w[i as int]);
            assert(w.skip(i as int).drop_first() =~= w.skip(i as int + 1));
            assert(spec_merge_rec(old_out, w.skip(i as int)) == spec_merge_rec(
                out@,
                w.skip(i as int + 1),
            ));
        }
        i = i + 1;
    }
    proof {
        assert(spec_widen(segs@, m, n).skip(segs@.len() as int) =~= Seq::<(usize, usize)>::empty());
    }
    out
}

} // verus!
