//! Candidate selection for the scan: which walked files are video
//! candidates, which paths are excluded, and how probed files are turned
//! into ledger rows. The filesystem walk and the probe subprocess live
//! outside the library; they hand in plain paths, sizes and probe reports.

use vstd::prelude::*;

use crate::database::{
    batch_views, spec_insert_batch, Database, NewTranscodeFile, NewTranscodeFileV, TranscodeFile,
    TranscodeFileV,
};
use crate::error::TranscodeError;
use crate::ffprobe::{spec_bitrate, spec_probe_frame_rate, spec_probe_resolution,
    spec_duration_millis_clipped, spec_video_codec, FfProbeV};
use crate::paths::{spec_extension, spec_file_stem};
use crate::text::{contains_seq, ends_with_seq, str_contains, str_eq, str_ends_with};

verus! {

/// The sort orders a listing can ask for.
#[derive(Clone, Copy, PartialEq, Eq, Structural, Debug)]
pub enum FileSortOrder {
    BiggestFirst,
}

// ---------------------------------------------------------------------------
// The in-memory unit of transcoding work
// ---------------------------------------------------------------------------

/// One ledger row reduced to what a worker needs, owned by that worker.
pub struct VideoFile {
    pub rowid: i64,
    pub path: String,
    /// Duration in milliseconds.
    pub duration_millis: u64,
    pub resolution: (u32, u32),
    pub bitrate: u64,
    /// Frame rate as a numerator/denominator pair.
    pub frame_rate: (u64, u64),
    pub codec: String,
    pub file_size: u64,
}

/// Spec view of [`VideoFile`].
pub ghost struct VideoFileV {
    pub rowid: i64,
    pub path: Seq<char>,
    pub duration_millis: u64,
    pub resolution: (u32, u32),
    pub bitrate: u64,
    pub frame_rate: (u64, u64),
    pub codec: Seq<char>,
    pub file_size: u64,
}

impl View for VideoFile {
    type V = VideoFileV;

    open spec fn view(&self) -> VideoFileV {
        VideoFileV {
            rowid: self.rowid,
            path: self.path@,
            duration_millis: self.duration_millis,
            resolution: self.resolution,
            bitrate: self.bitrate,
            frame_rate: self.frame_rate,
            codec: self.codec@,
            file_size: self.file_size,
        }
    }
}

impl Clone for VideoFile {
    fn clone(&self) -> (r: Self)
        ensures
            r@ == self@,
    {
        VideoFile {
            rowid: self.rowid,
            path: self.path.clone(),
            duration_millis: self.duration_millis,
            resolution: self.resolution,
            bitrate: self.bitrate,
            frame_rate: self.frame_rate,
            codec: self.codec.clone(),
            file_size: self.file_size,
        }
    }
}

/// The work item a ledger row with probe metadata reduces to.
pub open spec fn spec_video_file_of(t: TranscodeFileV) -> VideoFileV {
    let p = t.ffprobe_info.unwrap();
    VideoFileV {
        rowid: t.rowid,
        path: t.path,
        duration_millis: match spec_duration_millis_clipped(p) {
            Some(d) => d,
            None => 0,
        },
        resolution: spec_probe_resolution(p),
        bitrate: spec_bitrate(p),
        frame_rate: spec_probe_frame_rate(p),
        codec: spec_video_codec(p),
        file_size: t.file_size as u64,
    }
}

impl VideoFile {
    /// Reduces a ledger row to a work item. The row must carry probe
    /// metadata: a row without it is never selected.
    pub fn from(value: &TranscodeFile) -> (r: VideoFile)
        requires
            value@.ffprobe_info is Some,
            value@.file_size >= 0,
        ensures
            r@ == spec_video_file_of(value@),
    {
        match &value.ffprobe_info {
            Some(p) => {
                let duration_millis = match p.duration_millis() {
                    Some(d) => d,
                    None => 0,
                };
                VideoFile {
                    rowid: value.rowid,
                    path: value.path.clone(),
                    duration_millis,
                    resolution: p.resolution(),
                    bitrate: p.bitrate(),
                    frame_rate: p.frame_rate(),
                    codec: p.video_codec().to_owned(),
                    file_size: value.file_size as u64,
                }
            },
            None => {
                proof {
                    assert(false);
                }
                VideoFile {
                    rowid: 0,
                    path: String::new(),
                    duration_millis: 0,
                    resolution: (0, 0),
                    bitrate: 0,
                    frame_rate: (0, 1),
                    codec: String::new(),
                    file_size: 0,
                }
            },
        }
    }

    /// The difficulty score used to rank candidates: pixels times whole
    /// seconds times bitrate times whole frames per second, held at the
    /// `u64` ceiling instead of wrapping.
    pub fn difficulty(&self) -> (d: u64)
        ensures
            d == spec_difficulty(self@),
    {
        let (width, height) = self.resolution;
        proof {
            assert(width as int * height as int <= u64::MAX) by (nonlinear_arith)
                requires
                    width <= u32::MAX,
                    height <= u32::MAX,
            ;
        }
        let pixels = (width as u64) * (height as u64);
        let seconds = self.duration_millis / 1000;
        let fr = if self.frame_rate.1 > 0 {
            self.frame_rate.0 / self.frame_rate.1
        } else {
            0
        };
        proof {
            lemma_clip_mul(pixels as int * seconds as int, self@.bitrate as int);
            lemma_clip_mul(pixels as int * seconds as int * self@.bitrate as int, fr as int);
        }
        sat_mul(sat_mul(sat_mul(pixels, seconds), self.bitrate), fr)
    }
}

/// `x` held at the `u64` ceiling.
pub open spec fn clip64(x: int) -> int {
    if x > u64::MAX {
        u64::MAX as int
    } else {
        x
    }
}

/// Multiplication held at the `u64` ceiling.
fn sat_mul(a: u64, b: u64) -> (r: u64)
    ensures
        r == clip64(a as int * b as int),
{
    match a.checked_mul(b) {
        Some(v) => v,
        None => u64::MAX,
    }
}

/// The difficulty score of a work item, held at the `u64` ceiling.
pub open spec fn spec_difficulty(v: VideoFileV) -> u64 {
    let pixels = v.resolution.0 as int * v.resolution.1 as int;
    let seconds = v.duration_millis as int / 1000;
    let fr: int = if v.frame_rate.1 > 0 {
        v.frame_rate.0 as int / v.frame_rate.1 as int
    } else {
        0
    };
    clip64(pixels * seconds * v.bitrate * fr) as u64
}

/// Clipping a factor before a further multiplication clips to the same
/// value the exact product would.
proof fn lemma_clip_mul(p: int, y: int)
    requires
        p >= 0,
        y >= 0,
    ensures
        clip64(clip64(p) * y) == clip64(p * y),
{
    if p > u64::MAX {
        if y >= 1 {
            assert(u64::MAX as int * y >= u64::MAX && p * y >= p) by (nonlinear_arith)
                requires
                    p > u64::MAX,
                    y >= 1,
            ;
        } else {
            assert(u64::MAX as int * y == 0 && p * y == 0) by (nonlinear_arith)
                requires
                    y == 0,
            ;
        }
    }
}

// ---------------------------------------------------------------------------
// Run statistics
// ---------------------------------------------------------------------------

/// How many work items carry this codec.
pub open spec fn count_codec(files: Seq<VideoFileV>, c: Seq<char>) -> int
    decreases files.len(),
{
    if files.len() == 0 {
        0
    } else {
        count_codec(files.drop_last(), c) + if files.last().codec == c {
            1int
        } else {
            0int
        }
    }
}

/// How many work items report this resolution.
pub open spec fn count_resolution(files: Seq<VideoFileV>, r: (u32, u32)) -> int
    decreases files.len(),
{
    if files.len() == 0 {
        0
    } else {
        count_resolution(files.drop_last(), r) + if files.last().resolution == r {
            1int
        } else {
            0int
        }
    }
}

/// Whether the table has a key for this codec.
pub open spec fn table_has_codec(d: Seq<(String, u64)>, c: Seq<char>) -> bool {
    exists|k: int| 0 <= k < d.len() && (#[trigger] d[k]).0@ == c
}

/// Every codec of the batch has a key in the table.
pub open spec fn codec_keys_complete(fvs: Seq<VideoFileV>, d: Seq<(String, u64)>) -> bool {
    forall|i: int| 0 <= i < fvs.len() ==> table_has_codec(d, (#[trigger] fvs[i]).codec)
}

/// Whether the table has a key for this resolution.
pub open spec fn table_has_resolution(d: Seq<((u32, u32), u64)>, r: (u32, u32)) -> bool {
    exists|k: int| 0 <= k < d.len() && (#[trigger] d[k]).0 == r
}

/// Every resolution of the batch has a key in the table.
pub open spec fn resolution_keys_complete(fvs: Seq<VideoFileV>, d: Seq<((u32, u32), u64)>) -> bool {
    forall|i: int| 0 <= i < fvs.len() ==> table_has_resolution(d, (#[trigger] fvs[i]).resolution)
}

proof fn lemma_count_codec_step(files: Seq<VideoFileV>, c: Seq<char>, i: int)
    requires
        0 <= i < files.len(),
    ensures
        count_codec(files.take(i + 1), c) == count_codec(files.take(i), c) + if files[i].codec
            == c {
            1int
        } else {
            0int
        },
{
    assert(files.take(i + 1).drop_last() =~= files.take(i));
    assert(files.take(i + 1).last() == files[i]);
}

proof fn lemma_count_resolution_step(files: Seq<VideoFileV>, r: (u32, u32), i: int)
    requires
        0 <= i < files.len(),
    ensures
        count_resolution(files.take(i + 1), r) == count_resolution(files.take(i), r) + if files[
            i
        ].resolution == r {
            1int
        } else {
            0int
        },
{
    assert(files.take(i + 1).drop_last() =~= files.take(i));
    assert(files.take(i + 1).last() == files[i]);
}

/// The number of work items with each codec: every codec of the batch
/// appears exactly once as a key, with exactly its number of carriers.
#[verifier::rlimit(60)]
pub fn codec_distribution(files: &Vec<VideoFile>) -> (d: Vec<(String, u64)>)
    ensures
        ({
            let fvs = files@.map_values(|v: VideoFile| v@);
            &&& forall|k1: int, k2: int|
                0 <= k1 < k2 < d@.len() ==> d@[k1].0@ != d@[k2].0@
            &&& forall|k: int|
                0 <= k < d@.len() ==> (#[trigger] d@[k]).1 == count_codec(fvs, d@[k].0@)
            &&& codec_keys_complete(fvs, d@)
        }),
{
    let ghost fvs = files@.map_values(|v: VideoFile| v@);
    let mut d: Vec<(String, u64)> = Vec::new();
    let mut i: usize = 0;
    while i < files.len()
        invariant
            0 <= i <= files@.len(),
            fvs == files@.map_values(|v: VideoFile| v@),
            forall|k1: int, k2: int| 0 <= k1 < k2 < d@.len() ==> d@[k1].0@ != d@[k2].0@,
            forall|k: int|
                0 <= k < d@.len() ==> (#[trigger] d@[k]).1 == count_codec(
                    fvs.take(i as int),
                    d@[k].0@,
                ),
            forall|k: int| 0 <= k < d@.len() ==> (#[trigger] d@[k]).1 <= i,
            codec_keys_complete(fvs.take(i as int), d@),
        decreases files@.len() - i,
    {
        let codec = files[i].codec.as_str();
        proof {
            assert(fvs[i as int].codec == files@[i as int]@.codec);
        }
        let mut k: usize = 0;
        let mut found = false;
        while k < d.len() && !found
            invariant
                0 <= k <= d@.len(),
                !found ==> forall|t: int| 0 <= t < k ==> d@[t].0@ != codec@,
                found ==> k < d@.len() && d@[k as int].0@ == codec@,
            decreases d@.len() - k + if found {
                0int
            } else {
                1int
            },
        {
            if str_eq(d[k].0.as_str(), codec) {
                found = true;
            } else {
                k = k + 1;
            }
        }
        let ghost before = d@;
        if found {
            let n = d[k].1;
            let key = d[k].0.clone();
            proof {
                assert(before[k as int].1 <= i);
            }
            d.set(k, (key, n + 1));
            proof {
                assert(d@[k as int].0@ == before[k as int].0@);
            }
        } else {
            d.push((codec.to_owned(), 1));
        }
        proof {
            assert forall|t: int| 0 <= t < d@.len() implies (#[trigger] d@[t]).1 == count_codec(
                fvs.take(i + 1),
                d@[t].0@,
            ) by {
                lemma_count_codec_step(fvs, d@[t].0@, i as int);
                if found {
                    if t != k {
                        assert(d@[t] == before[t]);
                        assert(d@[t].0@ != d@[k as int].0@);
                    }
                } else {
                    if t < d@.len() - 1 {
                        assert(d@[t] == before[t]);
                        assert(d@[t].0@ != codec@);
                    } else {
                        assert(count_codec(fvs.take(i as int), codec@) == 0) by {
                            assert forall|j: int| 0 <= j < i implies (#[trigger] fvs[j]).codec
                                != codec@ by {
                                assert(fvs.take(i as int)[j] == fvs[j]);
                                assert(table_has_codec(before, fvs.take(i as int)[j].codec));
                                let w = choose|w: int|
                                    0 <= w < before.len() && (#[trigger] before[w]).0@ == fvs.take(
                                        i as int,
                                    )[j].codec;
                                assert(before[w].0@ != codec@);
                            }
                            lemma_count_codec_absent(fvs, codec@, i as int);
                        }
                    }
                }
            }
            assert(codec_keys_complete(fvs.take(i + 1), d@)) by {
                assert forall|j: int| 0 <= j < i + 1 implies table_has_codec(
                    d@,
                    (#[trigger] fvs.take(i + 1)[j]).codec,
                ) by {
                    assert(fvs.take(i + 1)[j] == fvs[j]);
                    if j < i {
                        assert(fvs.take(i as int)[j] == fvs[j]);
                        assert(table_has_codec(before, fvs.take(i as int)[j].codec));
                        let w = choose|w: int|
                            0 <= w < before.len() && (#[trigger] before[w]).0@ == fvs.take(
                                i as int,
                            )[j].codec;
                        assert((d@[w]).0@ == fvs.take(i + 1)[j].codec);
                    } else {
                        if found {
                            assert((d@[k as int]).0@ == fvs.take(i + 1)[j].codec);
                        } else {
                            assert((d@[d@.len() - 1]).0@ == fvs.take(i + 1)[j].codec);
                        }
                    }
                }
            }
        }
        i = i + 1;
    }
    proof {
        assert(fvs.take(files@.len() as int) =~= fvs);
    }
    d
}

/// A codec no prefix element carries was counted zero times over that
/// prefix.
proof fn lemma_count_codec_absent(fvs: Seq<VideoFileV>, c: Seq<char>, i: int)
    requires
        0 <= i <= fvs.len(),
        forall|j: int| 0 <= j < i ==> (#[trigger] fvs[j]).codec != c,
    ensures
        count_codec(fvs.take(i), c) == 0,
    decreases i,
{
    if i > 0 {
        lemma_count_codec_absent(fvs, c, i - 1);
        assert(fvs.take(i).drop_last() =~= fvs.take(i - 1));
        assert(fvs.take(i).last() == fvs[i - 1]);
    } else {
        assert(fvs.take(0) =~= Seq::<VideoFileV>::empty());
    }
}

/// The number of work items at each resolution, keyed the same way as the
/// codec table.
#[verifier::rlimit(60)]
pub fn resolution_distribution(files: &Vec<VideoFile>) -> (d: Vec<((u32, u32), u64)>)
    ensures
        ({
            let fvs = files@.map_values(|v: VideoFile| v@);
            &&& forall|k1: int, k2: int|
                0 <= k1 < k2 < d@.len() ==> d@[k1].0 != d@[k2].0
            &&& forall|k: int|
                0 <= k < d@.len() ==> (#[trigger] d@[k]).1 == count_resolution(fvs, d@[k].0)
            &&& resolution_keys_complete(fvs, d@)
        }),
{
    let ghost fvs = files@.map_values(|v: VideoFile| v@);
    let mut d: Vec<((u32, u32), u64)> = Vec::new();
    let mut i: usize = 0;
    while i < files.len()
        invariant
            0 <= i <= files@.len(),
            fvs == files@.map_values(|v: VideoFile| v@),
            forall|k1: int, k2: int| 0 <= k1 < k2 < d@.len() ==> d@[k1].0 != d@[k2].0,
            forall|k: int|
                0 <= k < d@.len() ==> (#[trigger] d@[k]).1 == count_resolution(
                    fvs.take(i as int),
                    d@[k].0,
                ),
            forall|k: int| 0 <= k < d@.len() ==> (#[trigger] d@[k]).1 <= i,
            resolution_keys_complete(fvs.take(i as int), d@),
        decreases files@.len() - i,
    {
        let res = files[i].resolution;
        proof {
            assert(fvs[i as int].resolution == files@[i as int]@.resolution);
        }
        let mut k: usize = 0;
        let mut found = false;
        while k < d.len() && !found
            invariant
                0 <= k <= d@.len(),
                !found ==> forall|t: int| 0 <= t < k ==> d@[t].0 != res,
                found ==> k < d@.len() && d@[k as int].0 == res,
            decreases d@.len() - k + if found {
                0int
            } else {
                1int
            },
        {
            let key = d[k].0;
            if key.0 == res.0 && key.1 == res.1 {
                found = true;
            } else {
                k = k + 1;
            }
        }
        let ghost before = d@;
        if found {
            let n = d[k].1;
            proof {
                assert(before[k as int].1 <= i);
            }
            d.set(k, (res, n + 1));
        } else {
            d.push((res, 1));
        }
        proof {
            assert forall|t: int| 0 <= t < d@.len() implies (#[trigger] d@[t]).1
                == count_resolution(fvs.take(i + 1), d@[t].0) by {
                lemma_count_resolution_step(fvs, d@[t].0, i as int);
                if found {
                    if t != k {
                        assert(d@[t] == before[t]);
                        assert(d@[t].0 != d@[k as int].0);
                    }
                } else {
                    if t < d@.len() - 1 {
                        assert(d@[t] == before[t]);
                        assert(d@[t].0 != res);
                    } else {
                        assert(count_resolution(fvs.take(i as int), res) == 0) by {
                            assert forall|j: int| 0 <= j < i implies (#[trigger] fvs[j]).resolution
                                != res by {
                                assert(fvs.take(i as int)[j] == fvs[j]);
                                assert(table_has_resolution(
                                    before,
                                    fvs.take(i as int)[j].resolution,
                                ));
                                let w = choose|w: int|
                                    0 <= w < before.len() && (#[trigger] before[w]).0 == fvs.take(
                                        i as int,
                                    )[j].resolution;
                                assert(before[w].0 != res);
                            }
                            lemma_count_resolution_absent(fvs, res, i as int);
                        }
                    }
                }
            }
            assert(resolution_keys_complete(fvs.take(i + 1), d@)) by {
                assert forall|j: int| 0 <= j < i + 1 implies table_has_resolution(
                    d@,
                    (#[trigger] fvs.take(i + 1)[j]).resolution,
                ) by {
                    assert(fvs.take(i + 1)[j] == fvs[j]);
                    if j < i {
                        assert(fvs.take(i as int)[j] == fvs[j]);
                        assert(table_has_resolution(before, fvs.take(i as int)[j].resolution));
                        let w = choose|w: int|
                            0 <= w < before.len() && (#[trigger] before[w]).0 == fvs.take(
                                i as int,
                            )[j].resolution;
                        assert((d@[w]).0 == fvs.take(i + 1)[j].resolution);
                    } else {
                        if found {
                            assert((d@[k as int]).0 == fvs.take(i + 1)[j].resolution);
                        } else {
                            assert((d@[d@.len() - 1]).0 == fvs.take(i + 1)[j].resolution);
                        }
                    }
                }
            }
        }
        i = i + 1;
    }
    proof {
        assert(fvs.take(files@.len() as int) =~= fvs);
    }
    d
}

/// A resolution no prefix element reports was counted zero times over
/// that prefix.
proof fn lemma_count_resolution_absent(fvs: Seq<VideoFileV>, r: (u32, u32), i: int)
    requires
        0 <= i <= fvs.len(),
        forall|j: int| 0 <= j < i ==> (#[trigger] fvs[j]).resolution != r,
    ensures
        count_resolution(fvs.take(i), r) == 0,
    decreases i,
{
    if i > 0 {
        lemma_count_resolution_absent(fvs, r, i - 1);
        assert(fvs.take(i).drop_last() =~= fvs.take(i - 1));
        assert(fvs.take(i).last() == fvs[i - 1]);
    } else {
        assert(fvs.take(0) =~= Seq::<VideoFileV>::empty());
    }
}

/// The total size in bytes of a set of work items, held at the `u64`
/// ceiling.
pub open spec fn spec_total_size(files: Seq<VideoFileV>) -> int
    decreases files.len(),
{
    if files.len() == 0 {
        0
    } else {
        spec_total_size(files.drop_last()) + files.last().file_size
    }
}

proof fn lemma_total_size_nonneg(files: Seq<VideoFileV>)
    ensures
        spec_total_size(files) >= 0,
    decreases files.len(),
{
    if files.len() > 0 {
        lemma_total_size_nonneg(files.drop_last());
    }
}

/// Sums the sizes of a set of work items, held at the `u64` ceiling.
pub fn total_file_size(files: &Vec<VideoFile>) -> (t: u64)
    ensures
        t == clip64(spec_total_size(files@.map_values(|v: VideoFile| v@))),
{
    let ghost fvs = files@.map_values(|v: VideoFile| v@);
    let mut total: u64 = 0;
    let mut i: usize = 0;
    while i < files.len()
        invariant
            0 <= i <= files@.len(),
            fvs == files@.map_values(|v: VideoFile| v@),
            total == clip64(spec_total_size(fvs.take(i as int))),
        decreases files@.len() - i,
    {
        proof {
            assert(fvs.take(i + 1).drop_last() =~= fvs.take(i as int));
            assert(fvs.take(i + 1).last() == fvs[i as int]);
            lemma_total_size_nonneg(fvs.take(i as int));
        }
        total = match total.checked_add(files[i].file_size) {
            Some(v) => v,
            None => u64::MAX,
        };
        i = i + 1;
    }
    proof {
        assert(fvs.take(files@.len() as int) =~= fvs);
    }
    total
}

// ---------------------------------------------------------------------------
// Candidate filtering
// ---------------------------------------------------------------------------

/// The file extensions taken as video candidates.
pub open spec fn is_video_extension(e: Seq<char>) -> bool {
    e == "mp4"@ || e == "mkv"@ || e == "avi"@ || e == "mov"@ || e == "wmv"@ || e == "flv"@
        || e == "webm"@ || e == "m4v"@
}

/// Whether one walked file is a candidate: a video extension, a stem not
/// already carrying the temporary-output marker, and a size above the
/// configured minimum.
pub open spec fn spec_is_candidate(p: Seq<char>, size: u64, min_size: Option<u64>) -> bool {
    &&& match spec_extension(p) {
        Some(e) => is_video_extension(e),
        None => false,
    }
    &&& !ends_with_seq(spec_file_stem(p), "_tmp"@)
    &&& match min_size {
        Some(m) => size > m,
        None => true,
    }
}

/// Whether `ext` is one of the video extensions.
fn video_extension(ext: &str) -> (r: bool)
    ensures
        r == is_video_extension(ext@),
{
    str_eq(ext, "mp4") || str_eq(ext, "mkv") || str_eq(ext, "avi") || str_eq(ext, "mov")
        || str_eq(ext, "wmv") || str_eq(ext, "flv") || str_eq(ext, "webm") || str_eq(ext, "m4v")
}

/// Whether one walked file should be probed and ingested.
pub fn is_candidate_file(path: &str, size: u64, min_size: &Option<u64>) -> (r: bool)
    ensures
        r == spec_is_candidate(path@, size, *min_size),
{
    let ext_ok = match crate::paths::extension(path) {
        Some(e) => video_extension(e),
        None => false,
    };
    if !ext_ok {
        return false;
    }
    let stem = crate::paths::file_stem(path);
    if str_ends_with(stem, "_tmp") {
        return false;
    }
    match min_size {
        Some(m) => size > *m,
        None => true,
    }
}

/// The codecs that are already in the target family and must not be
/// re-encoded.
pub open spec fn spec_codec_excluded(p: FfProbeV) -> bool {
    spec_video_codec(p) == "hevc"@ || spec_video_codec(p) == "av1"@
}

/// Whether a probe report names an already-encoded codec.
pub fn codec_excluded(p: &crate::ffprobe::FfProbe) -> (r: bool)
    ensures
        r == spec_codec_excluded(p@),
{
    let codec = p.video_codec();
    str_eq(codec, "hevc") || str_eq(codec, "av1")
}

// ---------------------------------------------------------------------------
// The collector
// ---------------------------------------------------------------------------

/// Walks a directory for candidates and fills the ledger with probed
/// files. The walk itself and the probe calls stay outside the library;
/// the collector holds the filter rules and the ingestion step.
pub struct Collector {
    database: Database,
    exclude: Vec<String>,
    base_path: String,
    min_size: Option<u64>,
}

/// Spec view of [`Collector`].
pub ghost struct CollectorV {
    pub ledger: Seq<TranscodeFileV>,
    pub exclude: Seq<Seq<char>>,
    pub base_path: Seq<char>,
    pub min_size: Option<u64>,
}

impl View for Collector {
    type V = CollectorV;

    closed spec fn view(&self) -> CollectorV {
        CollectorV {
            ledger: self.database@,
            exclude: self.exclude@.map_values(|e: String| e@),
            base_path: self.base_path@,
            min_size: self.min_size,
        }
    }
}

/// The rows of a batch that carry a codec worth encoding.
pub open spec fn spec_ingestable(files: Seq<NewTranscodeFileV>) -> Seq<NewTranscodeFileV> {
    files.filter(|f: NewTranscodeFileV| !spec_codec_excluded(f.ffprobe_info))
}

/// How the kept rows grow when one more probed file is considered.
proof fn lemma_ingestable_step(all: Seq<NewTranscodeFileV>, i: int)
    requires
        0 <= i < all.len(),
    ensures
        spec_ingestable(all.take(i + 1)) == if !spec_codec_excluded(all[i].ffprobe_info) {
            spec_ingestable(all.take(i)).push(all[i])
        } else {
            spec_ingestable(all.take(i))
        },
{
    reveal(Seq::filter);
    let t = all.take(i + 1);
    assert(t.len() == i + 1);
    assert(t.drop_last() =~= all.take(i));
    assert(t.last() == all[i]);
}

impl Collector {
    /// Whether this collector's ledger is well formed.
    pub open spec fn wf(&self) -> bool {
        crate::database::ledger_wf(self@.ledger)
    }

    /// A collector over the given ledger, root path, exclusion patterns
    /// and minimum size.
    pub fn new(
        database: Database,
        base_path: String,
        exclude: Vec<String>,
        min_size: Option<u64>,
    ) -> (r: Collector)
        ensures
            r@.ledger == database@,
            r@.exclude == exclude@.map_values(|e: String| e@),
            r@.base_path == base_path@,
            r@.min_size == min_size,
    {
        Collector { database, exclude, base_path, min_size }
    }

    /// Whether a walked path matches one of the exclusion patterns.
    pub fn is_excluded(&self, path: &str) -> (r: bool)
        ensures
            r == exists|i: int|
                0 <= i < self@.exclude.len() && contains_seq(path@, #[trigger] self@.exclude[i]),
    {
        let mut i: usize = 0;
        while i < self.exclude.len()
            invariant
                0 <= i <= self.exclude@.len(),
                forall|j: int| 0 <= j < i ==> !contains_seq(path@, #[trigger] self@.exclude[j]),
            decreases self.exclude@.len() - i,
        {
            if str_contains(path, self.exclude[i].as_str()) {
                proof {
                    assert(contains_seq(path@, self@.exclude[i as int]));
                }
                return true;
            }
            i = i + 1;
        }
        false
    }

    /// Whether one walked file should be probed: a candidate by name and
    /// size.
    pub fn is_candidate(&self, path: &str, size: u64) -> (r: bool)
        ensures
            r == spec_is_candidate(path@, size, self@.min_size),
    {
        is_candidate_file(path, size, &self.min_size)
    }

    /// Takes the probed files of one scan, drops those whose codec is
    /// already in the target family, inserts the rest into the ledger in
    /// one idempotent batch, and returns the paths that were kept.
    pub fn ingest_probed(&mut self, files: Vec<NewTranscodeFile>) -> (r: Result<
        Vec<String>,
        TranscodeError,
    >)
        requires
            old(self).wf(),
            forall|k: int| 0 <= k < files@.len() ==> (#[trigger] files@[k])@.file_size <= i64::MAX,
            old(self)@.ledger.len() + files@.len() <= i64::MAX,
        ensures
            final(self).wf(),
            final(self)@.exclude == old(self)@.exclude,
            final(self)@.base_path == old(self)@.base_path,
            final(self)@.min_size == old(self)@.min_size,
            match r {
                Ok(paths) => {
                    let kept = spec_ingestable(batch_views(files@));
                    &&& paths@.map_values(|p: String| p@) == kept.map_values(
                        |f: NewTranscodeFileV| f.path,
                    )
                    &&& exists|now: i64|
                        final(self)@.ledger == #[trigger] spec_insert_batch(
                            old(self)@.ledger,
                            kept,
                            now,
                        )
                },
                Err(_) => false,
            },
    {
        let ghost all = batch_views(files@);
        let mut kept: Vec<NewTranscodeFile> = Vec::new();
        let mut paths: Vec<String> = Vec::new();
        let mut i: usize = 0;
        while i < files.len()
            invariant
                0 <= i <= files@.len(),
                all == batch_views(files@),
                batch_views(kept@) == spec_ingestable(all.take(i as int)),
                paths@.map_values(|p: String| p@) =~= batch_views(kept@).map_values(
                    |f: NewTranscodeFileV| f.path,
                ),
                kept@.len() <= i,
                forall|k: int| 0 <= k < files@.len() ==> (#[trigger] files@[k])@.file_size
                    <= i64::MAX,
                forall|k: int| 0 <= k < kept@.len() ==> (#[trigger] kept@[k])@.file_size
                    <= i64::MAX,
            decreases files@.len() - i,
        {
            let f = &files[i];
            proof {
                assert(all[i as int] == files@[i as int]@);
                assert(all[i as int].ffprobe_info == f.ffprobe_info@);
                lemma_ingestable_step(all, i as int);
            }
            if !codec_excluded(&f.ffprobe_info) {
                let ghost kept_before = batch_views(kept@);
                let ghost paths_before = paths@.map_values(|p: String| p@);
                paths.push(f.path.clone());
                kept.push(NewTranscodeFile {
                    path: f.path.clone(),
                    file_size: f.file_size,
                    ffprobe_info: f.ffprobe_info.clone(),
                });
                proof {
                    assert(batch_views(kept@) =~= kept_before.push(all[i as int]));
                    assert(paths@.map_values(|p: String| p@) =~= paths_before.push(
                        all[i as int].path,
                    ));
                }
            } else {
                proof {
                    assert(batch_views(kept@) == spec_ingestable(all.take(i + 1)));
                }
            }
            i = i + 1;
        }
        proof {
            assert(all.take(files@.len() as int) =~= all);
        }
        match self.database.insert_batch(&kept) {
            Ok(_) => {
                proof {
                    assert(batch_views(kept@).map_values(|f: NewTranscodeFileV| f.path)
                        =~= spec_ingestable(all).map_values(|f: NewTranscodeFileV| f.path));
                }
                Ok(paths)
            },
            Err(e) => Err(e),
        }
    }
}

} // verus!
