//! Stitching finalized segments into a session's single main audio file.
//!
//! The first segment becomes the main file as it is; every later one is
//! appended sample by sample, keeping the main file's format.

use vstd::prelude::*;
use crate::capture::AudioFormat;

verus! {

/// Decimal digits of `n`, most significant first.
pub open spec fn decimal(n: nat) -> Seq<char>
    decreases n,
{
    if n < 10 {
        seq![digit_char(n)]
    } else {
        decimal(n / 10).push(digit_char(n % 10))
    }
}

/// The character of decimal digit `d`.
pub open spec fn digit_char(d: nat) -> char {
    ((d + 48) as u8) as char
}

/// The one-character text of decimal digit `d`.
fn digit_str(d: usize) -> (r: &'static str)
    requires
        d < 10,
    ensures
        r@ == seq![digit_char(d as nat)],
{
    proof {
        reveal_strlit("0");
        reveal_strlit("1");
        reveal_strlit("2");
        reveal_strlit("3");
        reveal_strlit("4");
        reveal_strlit("5");
        reveal_strlit("6");
        reveal_strlit("7");
        reveal_strlit("8");
        reveal_strlit("9");
    }
    match d {
        0 => "0",
        1 => "1",
        2 => "2",
        3 => "3",
        4 => "4",
        5 => "5",
        6 => "6",
        7 => "7",
        8 => "8",
        _ => "9",
    }
}

/// The decimal digits of `n`.
pub fn decimal_string(n: usize) -> (r: String)
    ensures
        r@ == decimal(n as nat),
    decreases n,
{
    if n < 10 {
        digit_str(n).to_owned()
    } else {
        let head = decimal_string(n / 10);
        head.concat(digit_str(n % 10))
    }
}

/// Name of the main audio file inside a session directory.
pub fn main_file_name() -> (r: &'static str)
    ensures
        r@ == "audio.wav"@,
{
    "audio.wav"
}

/// Name of the file a merge is written to before it replaces the main file.
pub fn merge_file_name() -> (r: &'static str)
    ensures
        r@ == "audio.temp.wav"@,
{
    "audio.temp.wav"
}

/// Name of the file of segment `index` inside a session directory.
pub fn segment_file_name(index: usize) -> (r: String)
    ensures
        r@ == "audio_segment_"@ + decimal(index as nat) + ".wav"@,
{
    let name = "audio_segment_".to_owned();
    let digits = decimal_string(index);
    let name = name.concat(digits.as_str());
    name.concat(".wav")
}

/// Why a segment could not be stitched into the main file.
#[derive(Debug, Clone, Copy, PartialEq, Eq, Structural)]
pub enum StitchError {
    SegmentMissing,
    SegmentEmpty,
    MainUnreadable,
    SegmentUnreadable,
    EncodeFailed,
}

/// Decoded audio: a format and its interleaved samples.
#[derive(Debug, Clone, PartialEq, Eq)]
pub struct AudioTrack {
    pub format: AudioFormat,
    pub samples: Vec<i16>,
}

/// A track as a format and a sequence of samples.
pub type TrackView = (AudioFormat, Seq<i16>);

/// The main track after a segment is stitched onto `main` (`None`: there
/// is no main file yet, and the segment becomes it).
pub open spec fn stitched(main: Option<TrackView>, segment: TrackView) -> TrackView {
    match main {
        None => segment,
        Some(m) => (m.0, m.1 + segment.1),
    }
}

/// The main track after stitching `segments` in order onto `main`.
pub open spec fn stitched_all(main: Option<TrackView>, segments: Seq<TrackView>) -> Option<TrackView>
    decreases segments.len(),
{
    if segments.len() == 0 {
        main
    } else {
        stitched_all(Some(stitched(main, segments[0])), segments.drop_first())
    }
}

/// All samples of `segments`, one segment after the other.
pub open spec fn concat_samples(segments: Seq<TrackView>) -> Seq<i16>
    decreases segments.len(),
{
    if segments.len() == 0 {
        Seq::empty()
    } else {
        segments[0].1 + concat_samples(segments.drop_first())
    }
}

/// Appends the samples of `segment` to `main`; the result keeps the main
/// track's format, whatever the segment's format is.
pub fn append_track(main: AudioTrack, segment: AudioTrack) -> (r: AudioTrack)
    ensures
        (r.format, r.samples@) == stitched(Some((main.format, main.samples@)), (segment.format, segment.samples@)),
{
    let mut main = main;
    let mut segment = segment;
    main.samples.append(&mut segment.samples);
    main
}

/// How a segment joins the main file.
#[derive(Debug, Clone, Copy, PartialEq, Eq, Structural)]
pub enum AppendMethod {
    /// There is no main file: the segment file is renamed to become it.
    Rename,
    /// Both files are decoded and the merge replaces the main file.
    Merge,
}

/// Decides how a segment file of `segment_len` bytes joins the main file:
/// a missing or empty segment is refused; with no main file the segment
/// becomes it; otherwise the two are merged.
pub fn plan_append(segment_exists: bool, segment_len: u64, main_exists: bool) -> (r: Result<
    AppendMethod,
    StitchError,
>)
    ensures
        !segment_exists ==> r == Err::<AppendMethod, StitchError>(StitchError::SegmentMissing),
        segment_exists && segment_len == 0 ==> r == Err::<AppendMethod, StitchError>(
            StitchError::SegmentEmpty,
        ),
        segment_exists && segment_len > 0 && !main_exists ==> r == Ok::<AppendMethod, StitchError>(
            AppendMethod::Rename,
        ),
        segment_exists && segment_len > 0 && main_exists ==> r == Ok::<AppendMethod, StitchError>(
            AppendMethod::Merge,
        ),
{
    if !segment_exists {
        Err(StitchError::SegmentMissing)
    } else if segment_len == 0 {
        Err(StitchError::SegmentEmpty)
    } else if main_exists {
        Ok(AppendMethod::Merge)
    } else {
        Ok(AppendMethod::Rename)
    }
}

/// Stitching a run of segments onto an existing main track appends all
/// their samples, in order, and keeps the main track's format.
pub proof fn lemma_stitch_onto_main(main: TrackView, segments: Seq<TrackView>)
    ensures
        stitched_all(Some(main), segments) == Some((main.0, main.1 + concat_samples(segments))),
    decreases segments.len(),
{
    if segments.len() == 0 {
        assert(main.1 + concat_samples(segments) =~= main.1);
    } else {
        let rest = segments.drop_first();
        lemma_stitch_onto_main((main.0, main.1 + segments[0].1), rest);
        assert(main.1 + segments[0].1 + concat_samples(rest) =~= main.1 + concat_samples(segments));
    }
}

/// Segments stitched in creation order, starting with no main file, give a
/// main track in the first segment's format whose samples are those of
/// every segment, in order, none lost or repeated at a boundary.
pub proof fn lemma_stitch_round_trip(segments: Seq<TrackView>)
    requires
        segments.len() > 0,
    ensures
        stitched_all(None, segments) == Some((segments[0].0, concat_samples(segments))),
{
    let rest = segments.drop_first();
    lemma_stitch_onto_main(segments[0], rest);
    assert(segments[0].1 + concat_samples(rest) == concat_samples(segments));
}

/// Where segment `i`'s samples start in the stitched track: the number of
/// samples of the segments before it.
pub open spec fn segment_offset(segments: Seq<TrackView>, i: int) -> int {
    concat_samples(segments.take(i)).len() as int
}

proof fn lemma_concat_split(a: Seq<TrackView>, b: Seq<TrackView>)
    ensures
        concat_samples(a + b) == concat_samples(a) + concat_samples(b),
    decreases a.len(),
{
    if a.len() == 0 {
        assert(a + b =~= b);
        assert(concat_samples(a) + concat_samples(b) =~= concat_samples(b));
    } else {
        assert((a + b)[0] == a[0]);
        assert((a + b).drop_first() =~= a.drop_first() + b);
        lemma_concat_split(a.drop_first(), b);
        assert(concat_samples(a + b) =~= concat_samples(a) + concat_samples(b));
    }
}

/// In the main track stitched from segments in creation order, every
/// segment's samples stand unchanged at its offset (the sample count of
/// the segments before it), and the track holds exactly the samples of all
/// segments: none lost or repeated at a boundary.
pub proof fn lemma_stitch_keeps_offsets(segments: Seq<TrackView>, i: int)
    requires
        0 <= i < segments.len(),
    ensures
        ({
            let track = stitched_all(None, segments).unwrap().1;
            &&& track.len() == segment_offset(segments, segments.len() as int)
            &&& track.subrange(segment_offset(segments, i), segment_offset(segments, i)
                + segments[i].1.len()) == segments[i].1
        }),
{
    lemma_stitch_round_trip(segments);
    assert(segments.take(segments.len() as int) =~= segments);
    let before = segments.take(i);
    let rest = segments.skip(i);
    assert(segments =~= before + rest);
    lemma_concat_split(before, rest);
    assert(rest[0] == segments[i]);
    let c = concat_samples(segments);
    let o = segment_offset(segments, i);
    assert(concat_samples(rest) == segments[i].1 + concat_samples(rest.drop_first()));
    assert(c == concat_samples(before) + (segments[i].1 + concat_samples(rest.drop_first())));
    assert(c.subrange(o, o + segments[i].1.len()) =~= segments[i].1);
}

} // verus!
