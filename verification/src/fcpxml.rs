use vstd::prelude::*;
use crate::numfmt::{spec_dec, u64_to_string};

verus! {

/// One retained segment: `(start_frame, end_frame)`, inclusive frame
/// indices into the source, in source time.
#[derive(Clone, Copy, Debug)]
pub struct FcpClip(pub usize, pub usize);

/// The timeline aggregate: source reference, pixel dimensions, frame rate,
/// total duration in frames, and the ordered retained segments.
pub struct Fcp {
    pub source_file: String,
    pub name: String,
    pub dimensions: (u64, u64),
    pub frame_rate: u64,
    pub duration: u64,
    pub clips: Vec<FcpClip>,
}

/// Clips are in frame order and pairwise disjoint, each starting at or
/// before its end.
pub open spec fn clips_wf(clips: Seq<FcpClip>) -> bool {
    &&& forall|k: int| 0 <= k < clips.len() ==> (#[trigger] clips[k]).0 <= clips[k].1
    &&& forall|k: int| 0 <= k + 1 < clips.len() && 0 <= k ==> (#[trigger] clips[k]).1 < clips[k + 1].0
}

/// The cumulative placement offset of clip `k` on the packed output
/// timeline: the summed lengths of all preceding clips, so the retained
/// segments sit back to back with the silence cut out.
pub open spec fn spec_offset(clips: Seq<FcpClip>, k: int) -> int
    decreases k,
{
    if k <= 0 {
        0
    } else {
        spec_offset(clips, k - 1) + clips[k - 1].1 - clips[k - 1].0
    }
}

proof fn lemma_offset_bound(clips: Seq<FcpClip>, k: int)
    requires
        clips_wf(clips),
        0 <= k <= clips.len(),
    ensures
        0 <= spec_offset(clips, k),
        k >= 1 ==> spec_offset(clips, k) <= clips[k - 1].1,
    decreases k,
{
    if k <= 0 {
    } else {
        lemma_offset_bound(clips, k - 1);
    }
}

fn cumulative_offset(clips: &Vec<FcpClip>, index: usize) -> (r: usize)
    requires
        clips_wf(clips@),
        index <= clips@.len(),
    ensures
        r == spec_offset(clips@, index as int),
{
    let mut off: usize = 0;
    let mut j: usize = 0;
    while j < index
        invariant
            clips_wf(clips@),
            j <= index <= clips@.len(),
            off == spec_offset(clips@, j as int),
        decreases index - j,
    {
        proof {
            lemma_offset_bound(clips@, j as int + 1);
        }
        off = off + (clips[j].1 - clips[j].0);
        j = j + 1;
    }
    off
}

/// The path's base name: the characters after the last `/`, or the whole
/// path when it holds no `/`.
pub open spec fn spec_basename(s: Seq<char>) -> Seq<char>
    decreases s.len(),
{
    if s.len() == 0 {
        s
    } else if s.last() == '/' {
        Seq::empty()
    } else {
        spec_basename(s.drop_last()).push(s.last())
    }
}

proof fn lemma_basename_suffix(s: Seq<char>, i: int)
    requires
        0 <= i <= s.len(),
        forall|j: int| i <= j < s.len() ==> s[j] != '/',
        i > 0 ==> s[i - 1] == '/',
    ensures
        spec_basename(s) == s.subrange(i, s.len() as int),
    decreases s.len(),
{
    if s.len() == 0 {
        assert(s.subrange(0, 0) =~= s);
    } else if i == s.len() {
        assert(s.subrange(i, s.len() as int) =~= Seq::<char>::empty());
    } else {
        let s2 = s.drop_last();
        lemma_basename_suffix(s2, i);
        assert(s.subrange(i, s.len() as int) =~= s2.subrange(i, s2.len() as int).push(s.last()));
    }
}

fn basename(s: &str) -> (r: String)
    ensures
        r@ == spec_basename(s@),
{
    let n = s.unicode_len();
    let mut cut: usize = 0;
    let mut k: usize = n;
    let mut found = false;
    while k > 0 && !found
        invariant
            k <= n,
            n == s@.len(),
            !found ==> cut == 0 && (forall|j: int| k <= j < n ==> s@[j] != '/'),
            found ==> 1 <= cut <= n && s@[cut - 1] == '/' && (forall|j: int|
                cut <= j < n ==> s@[j] != '/'),
        decreases (if found { 0int } else { k + 1 }),
    {
        if s.get_char(k - 1) == '/' {
            cut = k;
            found = true;
        } else {
            k = k - 1;
        }
    }
    proof {
        lemma_basename_suffix(s@, cut as int);
    }
    s.substring_char(cut, n).to_owned()
}

/// The markup of one audio-track clip item.  `offset` is the clip's
/// cumulative placement on the packed output timeline; `start` and `end`
/// are the segment's frames in source time.
pub open spec fn spec_audio_clip(
    name: Seq<char>,
    path: Seq<char>,
    duration: u64,
    frame_rate: u64,
    start: usize,
    end: usize,
    offset: int,
    index: int,
) -> Seq<char> {
    r#"                    <clipitem id=""#@ +
    name +
    r#" "#@ +
    spec_dec(index) +
    r#"">
                        <name>"#@ +
    name +
    r#"</name>
                        <duration>"#@ +
    spec_dec(duration as int) +
    r#"</duration>
                        <rate>
                            <timebase>"#@ +
    spec_dec(frame_rate as int) +
    r#"</timebase>
                            <ntsc>FALSE</ntsc>
                        </rate>
                        <start>"#@ +
    spec_dec(offset) +
    r#"</start>
                        <end>"#@ +
    spec_dec(offset + (end - start)) +
    r#"</end>
                        <enabled>TRUE</enabled>
                        <in>"#@ +
    spec_dec(start as int) +
    r#"</in>
                        <out>"#@ +
    spec_dec(end as int) +
    r#"</out>
                        <file id=""#@ +
    name +
    r#" "#@ +
    spec_dec(index) +
    r#"">
                            <duration>"#@ +
    spec_dec(duration as int) +
    r#"</duration>
                            <rate>
                                <timebase>"#@ +
    spec_dec(frame_rate as int) +
    r#"</timebase>
                                <ntsc>FALSE</ntsc>
                            </rate>
                            <name>"#@ +
    name +
    r#"</name>
                            <pathurl>file://"#@ +
    path +
    r#"</pathurl>
                            <media>
                                <audio>
                                    <channelcount>2</channelcount>
                                </audio>
                            </media>
                        </file>
                        <sourcetrack>
                            <mediatype>audio</mediatype>
                            <trackindex>1</trackindex>
                        </sourcetrack>
                        <comments/>
                    </clipitem>"#@
}

/// The markup of one video-track clip item.
pub open spec fn spec_video_clip(
    name: Seq<char>,
    path: Seq<char>,
    width: u64,
    height: u64,
    duration: u64,
    frame_rate: u64,
    start: usize,
    end: usize,
    offset: int,
    index: int,
) -> Seq<char> {
    r#"                    <clipitem id=""#@ +
    name +
    r#" "#@ +
    spec_dec(index) +
    r#"">
                        <name>"#@ +
    name +
    r#"</name>
                        <duration>"#@ +
    spec_dec(duration as int) +
    r#"</duration>
                        <rate>
                            <timebase>"#@ +
    spec_dec(frame_rate as int) +
    r#"</timebase>
                            <ntsc>FALSE</ntsc>
                        </rate>
                        <start>"#@ +
    spec_dec(offset) +
    r#"</start>
                        <end>"#@ +
    spec_dec(offset + (end - start)) +
    r#"</end>
                        <enabled>TRUE</enabled>
                        <in>"#@ +
    spec_dec(start as int) +
    r#"</in>
                        <out>"#@ +
    spec_dec(end as int) +
    r#"</out>
                        <file id=""#@ +
    name +
    r#" "#@ +
    spec_dec(index) +
    r#"">
                            <duration>"#@ +
    spec_dec(duration as int) +
    r#"</duration>
                            <rate>
                                <timebase>"#@ +
    spec_dec(frame_rate as int) +
    r#"</timebase>
                                <ntsc>FALSE</ntsc>
                            </rate>
                            <name>"#@ +
    name +
    r#"</name>
                            <pathurl>file://"#@ +
    path +
    r#"</pathurl>
                            <timecode>
                                <string>00:00:00:00</string>
                                <displayformat>NDF</displayformat>
                                <rate>
                                    <timebase>"#@ +
    spec_dec(frame_rate as int) +
    r#"</timebase>
                                    <ntsc>FALSE</ntsc>
                                </rate>
                            </timecode>
                            <media>
                                <video>
                                    <duration>"#@ +
    spec_dec(duration as int) +
    r#"</duration>
                                    <samplecharacteristics>
                                        <width>"#@ +
    spec_dec(width as int) +
    r#"</width>
                                        <height>"#@ +
    spec_dec(height as int) +
    r#"</height>
                                    </samplecharacteristics>
                                </video>
                                <audio>
                                    <channelcount>2</channelcount>
                                </audio>
                            </media>
                        </file>
                        <compositemode>normal</compositemode>
                    </clipitem>"#@
}

/// The fixed document markup before the video track's clip items.
pub open spec fn spec_doc_pre(name: Seq<char>, duration: u64, frame_rate: u64) -> Seq<char> {
    r#"<?xml version="1.0" encoding="UTF-8"?>
<!DOCTYPE xmeml>
<xmeml version="5">
    <sequence>
        <name>Timeline "#@ +
    name +
    r#"</name>
        <duration>"#@ +
    spec_dec(duration as int) +
    r#"</duration>
        <rate>
            <timebase>"#@ +
    spec_dec(frame_rate as int) +
    r#"</timebase>
            <ntsc>FALSE</ntsc>
        </rate>
        <in>-1</in>
        <out>-1</out>
        <timecode>
            <string>01:00:00:00</string>
            <frame>108000</frame>
            <displayformat>NDF</displayformat>
            <rate>
                <timebase>"#@ +
    spec_dec(frame_rate as int) +
    r#"</timebase>
                <ntsc>FALSE</ntsc>
            </rate>
        </timecode>
        <media>
            <video>
                <track>
"#@
}

/// The fixed document markup between the two tracks' clip items, closing
/// the video track and carrying the format/samplecharacteristics block.
pub open spec fn spec_doc_mid(width: u64, height: u64, frame_rate: u64) -> Seq<char> {
    r#"
                    <enabled>TRUE</enabled>
                    <locked>FALSE</locked>
                </track>
                <format>
                    <samplecharacteristics>
                        <width>"#@ +
    spec_dec(width as int) +
    r#"</width>
                        <height>"#@ +
    spec_dec(height as int) +
    r#"</height>
                        <pixelaspectratio>square</pixelaspectratio>
                        <rate>
                            <timebase>"#@ +
    spec_dec(frame_rate as int) +
    r#"</timebase>
                            <ntsc>FALSE</ntsc>
                        </rate>
                        <codec>
                            <appspecificdata>
                                <appname>Final Cut Pro</appname>
                                <appmanufacturer>Apple Inc.</appmanufacturer>
                                <data>
                                    <qtcodec/>
                                </data>
                            </appspecificdata>
                        </codec>
                    </samplecharacteristics>
                </format>
            </video>
            <audio>
                <track>
"#@
}

/// The fixed document markup after the audio track's clip items.
pub open spec fn spec_doc_tail() -> Seq<char> {
    r#"
                    <enabled>TRUE</enabled>
                    <locked>FALSE</locked>
                </track>
            </audio>
        </media>
    </sequence>
</xmeml>"#@
}

/// The video clip of clip `k`, with its packed placement offset.
pub open spec fn spec_video_clip_at(fcp: Fcp, k: int) -> Seq<char> {
    spec_video_clip(
        fcp.name@,
        fcp.source_file@,
        fcp.dimensions.0,
        fcp.dimensions.1,
        fcp.duration,
        fcp.frame_rate,
        fcp.clips@[k].0,
        fcp.clips@[k].1,
        spec_offset(fcp.clips@, k),
        k,
    )
}

/// The audio clip of clip `k`, with its packed placement offset.
pub open spec fn spec_audio_clip_at(fcp: Fcp, k: int) -> Seq<char> {
    spec_audio_clip(
        fcp.name@,
        fcp.source_file@,
        fcp.duration,
        fcp.frame_rate,
        fcp.clips@[k].0,
        fcp.clips@[k].1,
        spec_offset(fcp.clips@, k),
        k,
    )
}

/// The video track's clip items for clips `0 .. k`, joined by newlines.
pub open spec fn spec_video_clips(fcp: Fcp, k: int) -> Seq<char>
    decreases k,
{
    if k <= 0 {
        Seq::empty()
    } else if k == 1 {
        spec_video_clip_at(fcp, 0)
    } else {
        spec_video_clips(fcp, k - 1) + "\n"@ + spec_video_clip_at(fcp, k - 1)
    }
}

/// The audio track's clip items for clips `0 .. k`, joined by newlines.
pub open spec fn spec_audio_clips(fcp: Fcp, k: int) -> Seq<char>
    decreases k,
{
    if k <= 0 {
        Seq::empty()
    } else if k == 1 {
        spec_audio_clip_at(fcp, 0)
    } else {
        spec_audio_clips(fcp, k - 1) + "\n"@ + spec_audio_clip_at(fcp, k - 1)
    }
}

/// The whole project document around the two tracks' clip sections.
pub open spec fn spec_doc(
    name: Seq<char>,
    duration: u64,
    frame_rate: u64,
    width: u64,
    height: u64,
    video_section: Seq<char>,
    audio_section: Seq<char>,
) -> Seq<char> {
    spec_doc_pre(name, duration, frame_rate) + video_section + spec_doc_mid(
        width,
        height,
        frame_rate,
    ) + audio_section + spec_doc_tail()
}

/// The serialized form of a timeline: the fixed document with one video
/// and one audio clip item per segment, in segment order.
pub open spec fn spec_xml(fcp: Fcp) -> Seq<char> {
    spec_doc(
        fcp.name@,
        fcp.duration,
        fcp.frame_rate,
        fcp.dimensions.0,
        fcp.dimensions.1,
        spec_video_clips(fcp, fcp.clips@.len() as int),
        spec_audio_clips(fcp, fcp.clips@.len() as int),
    )
}

/// Law: a timeline with zero segments serializes to exactly the fixed
/// document skeleton: both track elements are present but empty, and the
/// format/samplecharacteristics block and all enclosing elements remain.
pub proof fn lemma_zero_segments_doc(fcp: Fcp)
    requires
        fcp.clips@.len() == 0,
    ensures
        spec_xml(fcp) == spec_doc(
            fcp.name@,
            fcp.duration,
            fcp.frame_rate,
            fcp.dimensions.0,
            fcp.dimensions.1,
            Seq::<char>::empty(),
            Seq::<char>::empty(),
        ),
{
}

impl FcpClip {
    /// Builds a clip from a detected segment's frame pair.
    pub fn new(start: usize, end: usize) -> (r: FcpClip)
        ensures
            r.0 == start,
            r.1 == end,
    {
        FcpClip(start, end)
    }

    /// Renders this clip's audio-track clip item within `fcp`, placed at
    /// the packed cumulative offset of clip `index`.
    pub fn to_audio_string(&self, fcp: &Fcp, index: usize) -> (r: String)
        requires
            fcp.wf(),
            index < fcp.clips@.len(),
            *self == fcp.clips@[index as int],
        ensures
            r@ == spec_audio_clip_at(*fcp, index as int),
    {
        let off = cumulative_offset(&fcp.clips, index);
        proof {
            lemma_offset_bound(fcp.clips@, index as int + 1);
        }
        let fend = off + (self.1 - self.0);
        let mut s = r#"                    <clipitem id=""#.to_owned();
        s.append(fcp.name.as_str());
        s.append(r#" "#);
        let t1 = u64_to_string(index as u64);
        s.append(t1.as_str());
        s.append(r#"">
                        <name>"#);
        s.append(fcp.name.as_str());
        s.append(r#"</name>
                        <duration>"#);
        let t3 = u64_to_string(fcp.duration);
        s.append(t3.as_str());
        s.append(r#"</duration>
                        <rate>
                            <timebase>"#);
        let t4 = u64_to_string(fcp.frame_rate);
        s.append(t4.as_str());
        s.append(r#"</timebase>
                            <ntsc>FALSE</ntsc>
                        </rate>
                        <start>"#);
        let t5 = u64_to_string(off as u64);
        s.append(t5.as_str());
        s.append(r#"</start>
                        <end>"#);
        let t6 = u64_to_string(fend as u64);
        s.append(t6.as_str());
        s.append(r#"</end>
                        <enabled>TRUE</enabled>
                        <in>"#);
        let t7 = u64_to_string(self.0 as u64);
        s.append(t7.as_str());
        s.append(r#"</in>
                        <out>"#);
        let t8 = u64_to_string(self.1 as u64);
        s.append(t8.as_str());
        s.append(r#"</out>
                        <file id=""#);
        s.append(fcp.name.as_str());
        s.append(r#" "#);
        let t10 = u64_to_string(index as u64);
        s.append(t10.as_str());
        s.append(r#"">
                            <duration>"#);
        let t11 = u64_to_string(fcp.duration);
        s.append(t11.as_str());
        s.append(r#"</duration>
                            <rate>
                                <timebase>"#);
        let t12 = u64_to_string(fcp.frame_rate);
        s.append(t12.as_str());
        s.append(r#"</timebase>
                                <ntsc>FALSE</ntsc>
                            </rate>
                            <name>"#);
        s.append(fcp.name.as_str());
        s.append(r#"</name>
                            <pathurl>file://"#);
        s.append(fcp.source_file.as_str());
        s.append(r#"</pathurl>
                            <media>
                                <audio>
                                    <channelcount>2</channelcount>
                                </audio>
                            </media>
                        </file>
                        <sourcetrack>
                            <mediatype>audio</mediatype>
                            <trackindex>1</trackindex>
                        </sourcetrack>
                        <comments/>
                    </clipitem>"#);
        s
    }

    /// Renders this clip's video-track clip item within `fcp`, placed at
    /// the packed cumulative offset of clip `index`.
    pub fn to_video_string(&self, fcp: &Fcp, index: usize) -> (r: String)
        requires
            fcp.wf(),
            index < fcp.clips@.len(),
            *self == fcp.clips@[index as int],
        ensures
            r@ == spec_video_clip_at(*fcp, index as int),
    {
        let off = cumulative_offset(&fcp.clips, index);
        proof {
            lemma_offset_bound(fcp.clips@, index as int + 1);
        }
        let fend = off + (self.1 - self.0);
        let mut s = r#"                    <clipitem id=""#.to_owned();
        s.append(fcp.name.as_str());
        s.append(r#" "#);
        let t1 = u64_to_string(index as u64);
        s.append(t1.as_str());
        s.append(r#"">
                        <name>"#);
        s.append(fcp.name.as_str());
        s.append(r#"</name>
                        <duration>"#);
        let t3 = u64_to_string(fcp.duration);
        s.append(t3.as_str());
        s.append(r#"</duration>
                        <rate>
                            <timebase>"#);
        let t4 = u64_to_string(fcp.frame_rate);
        s.append(t4.as_str());
        s.append(r#"</timebase>
                            <ntsc>FALSE</ntsc>
                        </rate>
                        <start>"#);
        let t5 = u64_to_string(off as u64);
        s.append(t5.as_str());
        s.append(r#"</start>
                        <end>"#);
        let t6 = u64_to_string(fend as u64);
        s.append(t6.as_str());
        s.append(r#"</end>
                        <enabled>TRUE</enabled>
                        <in>"#);
        let t7 = u64_to_string(self.0 as u64);
        s.append(t7.as_str());
        s.append(r#"</in>
                        <out>"#);
        let t8 = u64_to_string(self.1 as u64);
        s.append(t8.as_str());
        s.append(r#"</out>
                        <file id=""#);
        s.append(fcp.name.as_str());
        s.append(r#" "#);
        let t10 = u64_to_string(index as u64);
        s.append(t10.as_str());
        s.append(r#"">
                            <duration>"#);
        let t11 = u64_to_string(fcp.duration);
        s.append(t11.as_str());
        s.append(r#"</duration>
                            <rate>
                                <timebase>"#);
        let t12 = u64_to_string(fcp.frame_rate);
        s.append(t12.as_str());
        s.append(r#"</timebase>
                                <ntsc>FALSE</ntsc>
                            </rate>
                            <name>"#);
        s.append(fcp.name.as_str());
        s.append(r#"</name>
                            <pathurl>file://"#);
        s.append(fcp.source_file.as_str());
        s.append(r#"</pathurl>
                            <timecode>
                                <string>00:00:00:00</string>
                                <displayformat>NDF</displayformat>
                                <rate>
                                    <timebase>"#);
        let t15 = u64_to_string(fcp.frame_rate);
        s.append(t15.as_str());
        s.append(r#"</timebase>
                                    <ntsc>FALSE</ntsc>
                                </rate>
                            </timecode>
                            <media>
                                <video>
                                    <duration>"#);
        let t16 = u64_to_string(fcp.duration);
        s.append(t16.as_str());
        s.append(r#"</duration>
                                    <samplecharacteristics>
                                        <width>"#);
        let t17 = u64_to_string(fcp.dimensions.0);
        s.append(t17.as_str());
        s.append(r#"</width>
                                        <height>"#);
        let t18 = u64_to_string(fcp.dimensions.1);
        s.append(t18.as_str());
        s.append(r#"</height>
                                    </samplecharacteristics>
                                </video>
                                <audio>
                                    <channelcount>2</channelcount>
                                </audio>
                            </media>
                        </file>
                        <compositemode>normal</compositemode>
                    </clipitem>"#);
        s
    }
}

fn doc_pre(name: &str, duration: u64, frame_rate: u64) -> (r: String)
    ensures
        r@ == spec_doc_pre(name@, duration, frame_rate),
{
    let mut s = r#"<?xml version="1.0" encoding="UTF-8"?>
<!DOCTYPE xmeml>
<xmeml version="5">
    <sequence>
        <name>Timeline "#.to_owned();
    s.append(name);
    s.append(r#"</name>
        <duration>"#);
    let t1 = u64_to_string(duration);
    s.append(t1.as_str());
    s.append(r#"</duration>
        <rate>
            <timebase>"#);
    let t2 = u64_to_string(frame_rate);
    s.append(t2.as_str());
    s.append(r#"</timebase>
            <ntsc>FALSE</ntsc>
        </rate>
        <in>-1</in>
        <out>-1</out>
        <timecode>
            <string>01:00:00:00</string>
            <frame>108000</frame>
            <displayformat>NDF</displayformat>
            <rate>
                <timebase>"#);
    let t3 = u64_to_string(frame_rate);
    s.append(t3.as_str());
    s.append(r#"</timebase>
                <ntsc>FALSE</ntsc>
            </rate>
        </timecode>
        <media>
            <video>
                <track>
"#);
    s
}

fn doc_mid(width: u64, height: u64, frame_rate: u64) -> (r: String)
    ensures
        r@ == spec_doc_mid(width, height, frame_rate),
{
    let mut s = r#"
                    <enabled>TRUE</enabled>
                    <locked>FALSE</locked>
                </track>
                <format>
                    <samplecharacteristics>
                        <width>"#.to_owned();
    let t0 = u64_to_string(width);
    s.append(t0.as_str());
    s.append(r#"</width>
                        <height>"#);
    let t1 = u64_to_string(height);
    s.append(t1.as_str());
    s.append(r#"</height>
                        <pixelaspectratio>square</pixelaspectratio>
                        <rate>
                            <timebase>"#);
    let t2 = u64_to_string(frame_rate);
    s.append(t2.as_str());
    s.append(r#"</timebase>
                            <ntsc>FALSE</ntsc>
                        </rate>
                        <codec>
                            <appspecificdata>
                                <appname>Final Cut Pro</appname>
                                <appmanufacturer>Apple Inc.</appmanufacturer>
                                <data>
                                    <qtcodec/>
                                </data>
                            </appspecificdata>
                        </codec>
                    </samplecharacteristics>
                </format>
            </video>
            <audio>
                <track>
"#);
    s
}

fn video_section(fcp: &Fcp) -> (r: String)
    requires
        fcp.wf(),
    ensures
        r@ == spec_video_clips(*fcp, fcp.clips@.len() as int),
{
    let mut s = String::new();
    let mut i: usize = 0;
    while i < fcp.clips.len()
        invariant
            fcp.wf(),
            i <= fcp.clips@.len(),
            s@ == spec_video_clips(*fcp, i as int),
        decreases fcp.clips@.len() - i,
    {
        let c = fcp.clips[i];
        let t = c.to_video_string(fcp, i);
        if i > 0 {
            s.append("\n");
        }
        s.append(t.as_str());
        proof {
            if i == 0 {
                assert(Seq::<char>::empty() + t@ =~= t@);
            }
            assert(s@ == spec_video_clips(*fcp, i as int + 1));
        }
        i = i + 1;
    }
    s
}

fn audio_section(fcp: &Fcp) -> (r: String)
    requires
        fcp.wf(),
    ensures
        r@ == spec_audio_clips(*fcp, fcp.clips@.len() as int),
{
    let mut s = String::new();
    let mut i: usize = 0;
    while i < fcp.clips.len()
        invariant
            fcp.wf(),
            i <= fcp.clips@.len(),
            s@ == spec_audio_clips(*fcp, i as int),
        decreases fcp.clips@.len() - i,
    {
        let c = fcp.clips[i];
        let t = c.to_audio_string(fcp, i);
        if i > 0 {
            s.append("\n");
        }
        s.append(t.as_str());
        proof {
            if i == 0 {
                assert(Seq::<char>::empty() + t@ =~= t@);
            }
            assert(s@ == spec_audio_clips(*fcp, i as int + 1));
        }
        i = i + 1;
    }
    s
}

impl Fcp {
    /// The clips are in frame order and pairwise disjoint, so the packed
    /// placement offsets stay within the machine's range.
    pub open spec fn wf(&self) -> bool {
        clips_wf(self.clips@)
    }

    /// Builds the timeline aggregate.  The sequence name is derived from
    /// the source path's base name; the segments are taken as given.
    pub fn new(
        source_file: String,
        dimensions: (u64, u64),
        frame_rate: u64,
        duration: u64,
        clips: Vec<(usize, usize)>,
    ) -> (r: Fcp)
        requires
            forall|k: int| 0 <= k < clips@.len() ==> (#[trigger] clips@[k]).0 <= clips@[k].1,
            forall|k: int|
                0 <= k + 1 < clips@.len() && 0 <= k ==> (#[trigger] clips@[k]).1 < clips@[k + 1].0,
        ensures
            r.source_file == source_file,
            r.name@ == spec_basename(source_file@),
            r.dimensions == dimensions,
            r.frame_rate == frame_rate,
            r.duration == duration,
            r.clips@.len() == clips@.len(),
            forall|k: int|
                0 <= k < clips@.len() ==> (#[trigger] r.clips@[k]).0 == clips@[k].0
                    && r.clips@[k].1 == clips@[k].1,
            r.wf(),
    {
        let name = basename(source_file.as_str());
        let mut cs: Vec<FcpClip> = Vec::new();
        let mut i: usize = 0;
        while i < clips.len()
            invariant
                i <= clips@.len(),
                cs@.len() == i,
                forall|k: int|
                    0 <= k < i ==> (#[trigger] cs@[k]).0 == clips@[k].0 && cs@[k].1 == clips@[k].1,
            decreases clips@.len() - i,
        {
            let c = clips[i];
            cs.push(FcpClip(c.0, c.1));
            i = i + 1;
        }
        Fcp { source_file, name, dimensions, frame_rate, duration, clips: cs }
    }

    /// Serializes the timeline into the fixed project markup: the document
    /// skeleton around one video and one audio clip item per segment, in
    /// segment order, each placed back to back on the packed timeline.
    pub fn to_xml(&self) -> (r: String)
        requires
            self.wf(),
        ensures
            r@ == spec_xml(*self),
    {
        let mut s = doc_pre(self.name.as_str(), self.duration, self.frame_rate);
        let v = video_section(self);
        s.append(v.as_str());
        let m = doc_mid(self.dimensions.0, self.dimensions.1, self.frame_rate);
        s.append(m.as_str());
        let a = audio_section(self);
        s.append(a.as_str());
        s.append(r#"
                    <enabled>TRUE</enabled>
                    <locked>FALSE</locked>
                </track>
            </audio>
        </media>
    </sequence>
</xmeml>"#);
        s
    }
}

} // verus!
