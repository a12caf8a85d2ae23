//! Structured technical metadata for one media file, as reported by the
//! external probing tool, together with the defensive accessors the rest of
//! the pipeline relies on: a missing or malformed duration, bitrate or frame
//! rate degrades to a zero value instead of failing the probe.

use vstd::prelude::*;

use crate::text::{
    all_digits, dec_digits_signed, dec_value, digit_value, first_index_of, find_first_char,
    i32_to_string, is_all_digits, is_digit_char, parse_u64_digits, str_eq,
};

verus! {

/// Spec view of an optional string as an optional character sequence.
pub open spec fn opt_view(o: Option<String>) -> Option<Seq<char>> {
    match o {
        Some(s) => Some(s@),
        None => None,
    }
}

/// Clones an optional string.
fn clone_opt_string(o: &Option<String>) -> (r: Option<String>)
    ensures
        opt_view(r) == opt_view(*o),
{
    match o {
        Some(s) => Some(s.clone()),
        None => None,
    }
}

/// Clones an optional 64-bit integer.
fn clone_opt_i64(o: &Option<i64>) -> (r: Option<i64>)
    ensures
        r == *o,
{
    match o {
        Some(v) => Some(*v),
        None => None,
    }
}

// ---------------------------------------------------------------------------
// Data model
// ---------------------------------------------------------------------------

/// Playback dispositions of one elementary stream.
#[derive(Clone, Copy, PartialEq, Eq, Structural, Debug, Default)]
pub struct Disposition {
    pub default: i64,
    pub dub: i64,
    pub original: i64,
    pub comment: i64,
    pub lyrics: i64,
    pub karaoke: i64,
    pub forced: i64,
    pub hearing_impaired: i64,
    pub visual_impaired: i64,
    pub clean_effects: i64,
    pub attached_pic: i64,
    pub timed_thumbnails: i64,
}

/// Free-form tags attached to one stream.
#[derive(Default)]
pub struct StreamTags {
    pub language: Option<String>,
    pub creation_time: Option<String>,
    pub handler_name: Option<String>,
    pub encoder: Option<String>,
}

/// Spec view of [`StreamTags`].
pub ghost struct StreamTagsV {
    pub language: Option<Seq<char>>,
    pub creation_time: Option<Seq<char>>,
    pub handler_name: Option<Seq<char>>,
    pub encoder: Option<Seq<char>>,
}

impl View for StreamTags {
    type V = StreamTagsV;

    open spec fn view(&self) -> StreamTagsV {
        StreamTagsV {
            language: opt_view(self.language),
            creation_time: opt_view(self.creation_time),
            handler_name: opt_view(self.handler_name),
            encoder: opt_view(self.encoder),
        }
    }
}

impl Clone for StreamTags {
    fn clone(&self) -> (r: Self)
        ensures
            r@ == self@,
    {
        StreamTags {
            language: clone_opt_string(&self.language),
            creation_time: clone_opt_string(&self.creation_time),
            handler_name: clone_opt_string(&self.handler_name),
            encoder: clone_opt_string(&self.encoder),
        }
    }
}

/// One side-data entry of a stream.
#[derive(Default)]
pub struct SideData {
    pub side_data_type: String,
}

impl View for SideData {
    type V = Seq<char>;

    open spec fn view(&self) -> Seq<char> {
        self.side_data_type@
    }
}

impl Clone for SideData {
    fn clone(&self) -> (r: Self)
        ensures
            r@ == self@,
    {
        SideData { side_data_type: self.side_data_type.clone() }
    }
}

/// One elementary stream of the probed container.
#[derive(Default)]
pub struct Stream {
    pub index: i64,
    pub codec_name: Option<String>,
    pub codec_type: Option<String>,
    /// Frame rate as a fraction, e.g. `30000/1001`.
    pub r_frame_rate: String,
    pub width: Option<i64>,
    pub height: Option<i64>,
    pub duration: Option<String>,
    pub bit_rate: Option<String>,
    pub disposition: Disposition,
    pub tags: Option<StreamTags>,
    pub side_data_list: Vec<SideData>,
}

/// Spec view of [`Stream`].
pub ghost struct StreamV {
    pub index: i64,
    pub codec_name: Option<Seq<char>>,
    pub codec_type: Option<Seq<char>>,
    pub r_frame_rate: Seq<char>,
    pub width: Option<i64>,
    pub height: Option<i64>,
    pub duration: Option<Seq<char>>,
    pub bit_rate: Option<Seq<char>>,
    pub disposition: Disposition,
    pub tags: Option<StreamTagsV>,
    pub side_data_list: Seq<Seq<char>>,
}

impl View for Stream {
    type V = StreamV;

    open spec fn view(&self) -> StreamV {
        StreamV {
            index: self.index,
            codec_name: opt_view(self.codec_name),
            codec_type: opt_view(self.codec_type),
            r_frame_rate: self.r_frame_rate@,
            width: self.width,
            height: self.height,
            duration: opt_view(self.duration),
            bit_rate: opt_view(self.bit_rate),
            disposition: self.disposition,
            tags: match self.tags {
                Some(t) => Some(t@),
                None => None,
            },
            side_data_list: self.side_data_list@.map_values(|d: SideData| d@),
        }
    }
}

impl Clone for Stream {
    fn clone(&self) -> (r: Self)
        ensures
            r@ == self@,
    {
        let r = Stream {
            index: self.index,
            codec_name: clone_opt_string(&self.codec_name),
            codec_type: clone_opt_string(&self.codec_type),
            r_frame_rate: self.r_frame_rate.clone(),
            width: clone_opt_i64(&self.width),
            height: clone_opt_i64(&self.height),
            duration: clone_opt_string(&self.duration),
            bit_rate: clone_opt_string(&self.bit_rate),
            disposition: self.disposition,
            tags: match &self.tags {
                Some(t) => Some(t.clone()),
                None => None,
            },
            side_data_list: self.side_data_list.clone(),
        };
        proof {
            assert(r.side_data_list@.map_values(|d: SideData| d@) =~= self.side_data_list@
                .map_values(|d: SideData| d@));
        }
        r
    }
}

/// Container-level metadata of the probed file.
#[derive(Default)]
pub struct Format {
    pub filename: String,
    pub nb_streams: i64,
    pub format_name: String,
    pub duration: Option<String>,
    pub size: Option<String>,
    pub bit_rate: Option<String>,
    pub tags: Option<FormatTags>,
}

/// Spec view of [`Format`].
pub ghost struct FormatV {
    pub filename: Seq<char>,
    pub nb_streams: i64,
    pub format_name: Seq<char>,
    pub duration: Option<Seq<char>>,
    pub size: Option<Seq<char>>,
    pub bit_rate: Option<Seq<char>>,
    pub tags: Option<FormatTagsV>,
}

impl View for Format {
    type V = FormatV;

    open spec fn view(&self) -> FormatV {
        FormatV {
            filename: self.filename@,
            nb_streams: self.nb_streams,
            format_name: self.format_name@,
            duration: opt_view(self.duration),
            size: opt_view(self.size),
            bit_rate: opt_view(self.bit_rate),
            tags: match self.tags {
                Some(t) => Some(t@),
                None => None,
            },
        }
    }
}

impl Clone for Format {
    fn clone(&self) -> (r: Self)
        ensures
            r@ == self@,
    {
        Format {
            filename: self.filename.clone(),
            nb_streams: self.nb_streams,
            format_name: self.format_name.clone(),
            duration: clone_opt_string(&self.duration),
            size: clone_opt_string(&self.size),
            bit_rate: clone_opt_string(&self.bit_rate),
            tags: match &self.tags {
                Some(t) => Some(t.clone()),
                None => None,
            },
        }
    }
}

impl Format {
    /// Container duration in milliseconds, rounded down; `None` when the
    /// duration text is missing or not a decimal number.
    pub fn duration_millis(&self) -> (r: Option<u64>)
        ensures
            r == spec_format_duration_millis(self@),
    {
        match &self.duration {
            Some(text) => parse_decimal_millis(text.as_str()),
            None => None,
        }
    }
}

/// The format block's duration in milliseconds when present, well formed,
/// and small enough for a `u64`.
pub open spec fn spec_format_duration_millis(f: FormatV) -> Option<u64> {
    match f.duration {
        Some(text) => match spec_decimal_millis(text) {
            Some(m) => if m <= u64::MAX {
                Some(m as u64)
            } else {
                None
            },
            None => None,
        },
        None => None,
    }
}

/// Container-level tags of the probed file.
#[derive(Default)]
pub struct FormatTags {
    pub major_brand: Option<String>,
    pub minor_version: Option<String>,
    pub compatible_brands: Option<String>,
    pub creation_time: Option<String>,
    pub encoder: Option<String>,
}

/// Spec view of [`FormatTags`].
pub ghost struct FormatTagsV {
    pub major_brand: Option<Seq<char>>,
    pub minor_version: Option<Seq<char>>,
    pub compatible_brands: Option<Seq<char>>,
    pub creation_time: Option<Seq<char>>,
    pub encoder: Option<Seq<char>>,
}

impl View for FormatTags {
    type V = FormatTagsV;

    open spec fn view(&self) -> FormatTagsV {
        FormatTagsV {
            major_brand: opt_view(self.major_brand),
            minor_version: opt_view(self.minor_version),
            compatible_brands: opt_view(self.compatible_brands),
            creation_time: opt_view(self.creation_time),
            encoder: opt_view(self.encoder),
        }
    }
}

impl Clone for FormatTags {
    fn clone(&self) -> (r: Self)
        ensures
            r@ == self@,
    {
        FormatTags {
            major_brand: clone_opt_string(&self.major_brand),
            minor_version: clone_opt_string(&self.minor_version),
            compatible_brands: clone_opt_string(&self.compatible_brands),
            creation_time: clone_opt_string(&self.creation_time),
            encoder: clone_opt_string(&self.encoder),
        }
    }
}

/// Everything the probing tool reports about one file.
pub struct FfProbe {
    pub streams: Vec<Stream>,
    pub format: Format,
}

/// Spec view of [`FfProbe`].
pub ghost struct FfProbeV {
    pub streams: Seq<StreamV>,
    pub format: FormatV,
}

impl View for FfProbe {
    type V = FfProbeV;

    open spec fn view(&self) -> FfProbeV {
        FfProbeV {
            streams: self.streams@.map_values(|s: Stream| s@),
            format: self.format@,
        }
    }
}

impl Clone for FfProbe {
    fn clone(&self) -> (r: Self)
        ensures
            r@ == self@,
    {
        let mut streams: Vec<Stream> = Vec::new();
        let mut i: usize = 0;
        while i < self.streams.len()
            invariant
                0 <= i <= self.streams.len(),
                streams@.map_values(|s: Stream| s@) =~= self.streams@.map_values(
                    |s: Stream| s@,
                ).take(i as int),
            decreases self.streams.len() - i,
        {
            let ghost prev = streams@.map_values(|s: Stream| s@);
            streams.push(self.streams[i].clone());
            i = i + 1;
            proof {
                assert(streams@.map_values(|s: Stream| s@) =~= prev.push(
                    self.streams@[i - 1]@,
                ));
                assert(prev.push(self.streams@[i - 1]@) =~= self.streams@.map_values(
                    |s: Stream| s@,
                ).take(i as int));
            }
        }
        let r = FfProbe { streams, format: self.format.clone() };
        proof {
            assert(r.streams@.map_values(|s: Stream| s@) =~= self.streams@.map_values(
                |s: Stream| s@,
            ));
        }
        r
    }
}

impl Default for FfProbe {
    /// The empty probe report: no streams, an all-empty format block.
    fn default() -> (r: Self)
        ensures
            r@.streams == Seq::<StreamV>::empty(),
            r@.format.filename == Seq::<char>::empty(),
            r@.format.nb_streams == 0,
            r@.format.format_name == Seq::<char>::empty(),
            r@.format.duration == None::<Seq<char>>,
            r@.format.size == None::<Seq<char>>,
            r@.format.bit_rate == None::<Seq<char>>,
            r@.format.tags == None::<FormatTagsV>,
    {
        let r = FfProbe {
            streams: Vec::new(),
            format: Format {
                filename: String::new(),
                nb_streams: 0,
                format_name: String::new(),
                duration: None,
                size: None,
                bit_rate: None,
                tags: None,
            },
        };
        proof {
            assert(r@.streams =~= Seq::<StreamV>::empty());
        }
        r
    }
}

// ---------------------------------------------------------------------------
// Accessors
// ---------------------------------------------------------------------------

/// Whether a stream carries video.
pub open spec fn is_video_stream(s: StreamV) -> bool {
    s.codec_type == Some("video"@)
}

/// The first video stream of a probe report, if any.
pub open spec fn spec_video_stream(streams: Seq<StreamV>) -> Option<StreamV>
    decreases streams.len(),
{
    if streams.len() == 0 {
        None
    } else if is_video_stream(streams[0]) {
        Some(streams[0])
    } else {
        spec_video_stream(streams.drop_first())
    }
}

proof fn lemma_spec_video_stream_skip(streams: Seq<StreamV>, i: int)
    requires
        0 <= i <= streams.len(),
        forall|j: int| 0 <= j < i ==> !is_video_stream(#[trigger] streams[j]),
    ensures
        spec_video_stream(streams) == spec_video_stream(streams.skip(i)),
    decreases i,
{
    if i > 0 {
        assert(streams.skip(1) =~= streams.drop_first());
        lemma_spec_video_stream_skip(streams.drop_first(), i - 1);
        assert(streams.drop_first().skip(i - 1) =~= streams.skip(i));
    } else {
        assert(streams.skip(0) =~= streams);
    }
}

/// The resolution a stream reports, `(0, 0)` when either side is missing or
/// out of the pixel range.
pub open spec fn spec_resolution(s: StreamV) -> (u32, u32) {
    match (s.width, s.height) {
        (Some(w), Some(h)) => if 0 <= w <= u32::MAX && 0 <= h <= u32::MAX {
            (w as u32, h as u32)
        } else {
            (0u32, 0u32)
        },
        _ => (0u32, 0u32),
    }
}

/// The frame rate a stream reports, as a numerator/denominator pair read
/// from the fraction text; `(0, 1)` when the text is malformed or the
/// denominator is zero.
pub open spec fn spec_frame_rate(s: StreamV) -> (u64, u64) {
    match first_index_of(s.r_frame_rate, '/') {
        Some(k) => {
            let num = s.r_frame_rate.take(k);
            let den = frame_rate_den_part(s.r_frame_rate, k);
            if num.len() > 0 && all_digits(num) && dec_value(num) <= u64::MAX && den.len() > 0
                && all_digits(den) && 0 < dec_value(den) <= u64::MAX {
                (dec_value(num) as u64, dec_value(den) as u64)
            } else {
                (0u64, 1u64)
            }
        },
        None => (0u64, 1u64),
    }
}

/// The denominator text: from just after the first `/` up to the next `/`,
/// or the end of the text.
pub open spec fn frame_rate_den_part(s: Seq<char>, k: int) -> Seq<char> {
    let rest = s.skip(k + 1);
    match first_index_of(rest, '/') {
        Some(m) => rest.take(m),
        None => rest,
    }
}

impl Stream {
    /// Pixel width and height, `(0, 0)` when the stream does not report both.
    pub fn resolution(&self) -> (r: (u32, u32))
        ensures
            r == spec_resolution(self@),
    {
        match (&self.width, &self.height) {
            (Some(w), Some(h)) => {
                let w = *w;
                let h = *h;
                if 0 <= w && w <= u32::MAX as i64 && 0 <= h && h <= u32::MAX as i64 {
                    (w as u32, h as u32)
                } else {
                    (0, 0)
                }
            },
            _ => (0, 0),
        }
    }

    /// Frame rate as a fraction, `(0, 1)` when the fraction text is
    /// malformed or the denominator is zero.
    pub fn frame_rate(&self) -> (r: (u64, u64))
        ensures
            r == spec_frame_rate(self@),
    {
        let text = self.r_frame_rate.as_str();
        match find_first_char(text, '/') {
            Some(k) => {
                let len = text.unicode_len();
                let num_text = text.substring_char(0, k);
                proof {
                    assert(num_text@ =~= self.r_frame_rate@.take(k as int));
                }
                let rest = text.substring_char(k + 1, len);
                proof {
                    assert(rest@ =~= self.r_frame_rate@.skip(k + 1));
                }
                let den_text = match find_first_char(rest, '/') {
                    Some(m) => {
                        let d = rest.substring_char(0, m);
                        proof {
                            assert(d@ =~= rest@.take(m as int));
                        }
                        d
                    },
                    None => rest,
                };
                assert(den_text@ == frame_rate_den_part(self.r_frame_rate@, k as int));
                let num = parse_u64_digits(num_text);
                let den = parse_u64_digits(den_text);
                match (num, den) {
                    (Some(n), Some(d)) => if d > 0 {
                        (n, d)
                    } else {
                        (0, 1)
                    },
                    _ => (0, 1),
                }
            },
            None => (0, 1),
        }
    }
}

impl FfProbe {
    /// The first video stream, if any.
    fn video_stream(&self) -> (r: Option<&Stream>)
        ensures
            match r {
                Some(s) => spec_video_stream(self@.streams) == Some(s@),
                None => spec_video_stream(self@.streams) == None::<StreamV>,
            },
    {
        let ghost views = self@.streams;
        let mut i: usize = 0;
        while i < self.streams.len()
            invariant
                0 <= i <= self.streams.len(),
                views == self.streams@.map_values(|s: Stream| s@),
                forall|j: int| 0 <= j < i ==> !is_video_stream(#[trigger] views[j]),
            decreases self.streams.len() - i,
        {
            let s = &self.streams[i];
            let is_video = match &s.codec_type {
                Some(t) => str_eq(t.as_str(), "video"),
                None => false,
            };
            if is_video {
                proof {
                    lemma_spec_video_stream_skip(views, i as int);
                    assert(views.skip(i as int)[0] == views[i as int]);
                }
                return Some(s);
            }
            i = i + 1;
        }
        proof {
            lemma_spec_video_stream_skip(views, i as int);
            assert(views.skip(i as int) =~= Seq::<StreamV>::empty());
        }
        None
    }

    /// Container bitrate in bits per second, 0 when missing or malformed.
    pub fn bitrate(&self) -> (r: u64)
        ensures
            r == spec_bitrate(self@),
    {
        match &self.format.bit_rate {
            Some(text) => match parse_u64_digits(text.as_str()) {
                Some(v) => v,
                None => 0,
            },
            None => 0,
        }
    }

    /// Resolution of the first video stream, `(0, 0)` when there is none.
    pub fn resolution(&self) -> (r: (u32, u32))
        ensures
            r == spec_probe_resolution(self@),
    {
        match self.video_stream() {
            Some(s) => s.resolution(),
            None => (0, 0),
        }
    }

    /// Frame rate of the first video stream, `(0, 1)` when there is none.
    pub fn frame_rate(&self) -> (r: (u64, u64))
        ensures
            r == spec_probe_frame_rate(self@),
    {
        match self.video_stream() {
            Some(s) => s.frame_rate(),
            None => (0, 1),
        }
    }

    /// Codec name of the first video stream, empty when there is none or the
    /// stream does not name its codec.
    pub fn video_codec(&self) -> (r: &str)
        ensures
            r@ == spec_video_codec(self@),
    {
        proof {
            reveal_strlit("");
        }
        match self.video_stream() {
            Some(s) => match &s.codec_name {
                Some(n) => n.as_str(),
                None => "",
            },
            None => "",
        }
    }

    /// Container duration in milliseconds, rounded down; `None` when the
    /// duration text is missing or not a decimal number.
    pub fn duration_millis(&self) -> (r: Option<u64>)
        ensures
            r == spec_duration_millis_clipped(self@),
    {
        self.format.duration_millis()
    }
}

/// Container bitrate in bits per second, 0 when missing or malformed.
pub open spec fn spec_bitrate(p: FfProbeV) -> u64 {
    match p.format.bit_rate {
        Some(text) => if text.len() > 0 && all_digits(text) && dec_value(text) <= u64::MAX {
            dec_value(text) as u64
        } else {
            0
        },
        None => 0,
    }
}

/// Resolution of the first video stream, `(0, 0)` when there is none.
pub open spec fn spec_probe_resolution(p: FfProbeV) -> (u32, u32) {
    match spec_video_stream(p.streams) {
        Some(s) => spec_resolution(s),
        None => (0u32, 0u32),
    }
}

/// Frame rate of the first video stream, `(0, 1)` when there is none.
pub open spec fn spec_probe_frame_rate(p: FfProbeV) -> (u64, u64) {
    match spec_video_stream(p.streams) {
        Some(s) => spec_frame_rate(s),
        None => (0u64, 1u64),
    }
}

/// Codec name of the first video stream, empty when absent.
pub open spec fn spec_video_codec(p: FfProbeV) -> Seq<char> {
    match spec_video_stream(p.streams) {
        Some(s) => match s.codec_name {
            Some(n) => n,
            None => Seq::<char>::empty(),
        },
        None => Seq::<char>::empty(),
    }
}

/// Milliseconds denoted by a decimal seconds text such as `130.5`, rounded
/// down; `None` when the text is not a decimal number.
pub open spec fn spec_decimal_millis(s: Seq<char>) -> Option<int> {
    match first_index_of(s, '.') {
        None => if s.len() > 0 && all_digits(s) {
            Some(dec_value(s) * 1000)
        } else {
            None
        },
        Some(k) => {
            let whole = s.take(k);
            let frac = s.skip(k + 1);
            if (whole.len() > 0 || frac.len() > 0) && all_digits(whole) && all_digits(frac) {
                Some(dec_value(whole) * 1000 + frac_millis(frac))
            } else {
                None
            }
        },
    }
}

/// The milliseconds contributed by the fractional digits: the first three
/// digits, padded with zeros on the right.
pub open spec fn frac_millis(frac: Seq<char>) -> int {
    if frac.len() >= 3 {
        dec_value(frac.take(3))
    } else if frac.len() == 2 {
        dec_value(frac) * 10
    } else if frac.len() == 1 {
        dec_value(frac) * 100
    } else {
        0
    }
}

/// The container duration in milliseconds when present, well formed, and
/// small enough for a `u64`.
pub open spec fn spec_duration_millis_clipped(p: FfProbeV) -> Option<u64> {
    match p.format.duration {
        Some(text) => match spec_decimal_millis(text) {
            Some(m) => if m <= u64::MAX {
                Some(m as u64)
            } else {
                None
            },
            None => None,
        },
        None => None,
    }
}

/// Reads a decimal seconds text as milliseconds, rounding down.
pub fn parse_decimal_millis(s: &str) -> (r: Option<u64>)
    ensures
        r == match spec_decimal_millis(s@) {
            Some(m) => if m <= u64::MAX {
                Some(m as u64)
            } else {
                None::<u64>
            },
            None => None::<u64>,
        },
{
    let len = s.unicode_len();
    match find_first_char(s, '.') {
        None => {
            match parse_u64_digits(s) {
                Some(v) => {
                    proof {
                        lemma_dec_value_times_1000_overflow(s@);
                    }
                    match v.checked_mul(1000) {
                        Some(m) => Some(m),
                        None => None,
                    }
                },
                None => {
                    proof {
                        if s@.len() > 0 && all_digits(s@) {
                            crate::text::lemma_dec_value_nonneg(s@);
                        }
                    }
                    None
                },
            }
        },
        Some(k) => {
            let whole_text = s.substring_char(0, k);
            proof {
                assert(whole_text@ =~= s@.take(k as int));
            }
            let frac_text = s.substring_char(k + 1, len);
            proof {
                assert(frac_text@ =~= s@.skip(k + 1));
            }
            let whole_len = whole_text.unicode_len();
            let frac_len = frac_text.unicode_len();
            if whole_len == 0 && frac_len == 0 {
                return None;
            }
            if !is_all_digits(whole_text) || !is_all_digits(frac_text) {
                return None;
            }
            let whole_val: u64 = if whole_len == 0 {
                0
            } else {
                match parse_u64_digits(whole_text) {
                    Some(v) => v,
                    None => {
                        proof {
                            crate::text::lemma_dec_value_nonneg(frac_text@);
                            lemma_frac_millis_nonneg(frac_text@);
                        }
                        return None;
                    },
                }
            };
            let f: u64 = frac_millis_exec(frac_text);
            proof {
                lemma_frac_millis_bound(frac_text@);
            }
            match whole_val.checked_mul(1000) {
                Some(m) => match m.checked_add(f) {
                    Some(total) => Some(total),
                    None => None,
                },
                None => {
                    proof {
                        lemma_frac_millis_nonneg(frac_text@);
                    }
                    None
                },
            }
        },
    }
}

proof fn lemma_frac_millis_nonneg(frac: Seq<char>)
    ensures
        frac_millis(frac) >= 0,
{
    crate::text::lemma_dec_value_nonneg(frac);
    crate::text::lemma_dec_value_nonneg(frac.take(3));
}

/// Ten to the `n`.
pub open spec fn pow10(n: nat) -> int
    decreases n,
{
    if n == 0 {
        1
    } else {
        10 * pow10((n - 1) as nat)
    }
}

/// An all-digit string of length `n` denotes less than ten to the `n`.
proof fn lemma_dec_value_bound(s: Seq<char>)
    requires
        all_digits(s),
    ensures
        0 <= dec_value(s) < pow10(s.len()),
    decreases s.len(),
{
    if s.len() > 0 {
        assert(all_digits(s.drop_last())) by {
            assert(forall|i: int| 0 <= i < s.len() - 1 ==> s.drop_last()[i] == s[i]);
        }
        lemma_dec_value_bound(s.drop_last());
        assert(is_digit_char(s.last()));
        assert(digit_value(s.last()) <= 9);
        assert(pow10(s.len()) == 10 * pow10((s.len() - 1) as nat));
    }
}

proof fn lemma_pow10_3()
    ensures
        pow10(0) == 1,
        pow10(1) == 10,
        pow10(2) == 100,
        pow10(3) == 1000,
{
    assert(pow10(0) == 1);
    assert(pow10(1) == 10);
    assert(pow10(2) == 100);
    assert(pow10(3) == 1000);
}

proof fn lemma_frac_millis_bound(frac: Seq<char>)
    requires
        all_digits(frac),
    ensures
        0 <= frac_millis(frac) < 1000,
{
    lemma_pow10_3();
    if frac.len() >= 3 {
        assert(all_digits(frac.take(3))) by {
            assert(forall|i: int| 0 <= i < 3 ==> frac.take(3)[i] == frac[i]);
        }
        lemma_dec_value_bound(frac.take(3));
    } else if frac.len() == 2 {
        lemma_dec_value_bound(frac);
    } else if frac.len() == 1 {
        lemma_dec_value_bound(frac);
    }
}

/// If the digits of `s` overflow a `u64`, so does their value times 1000.
proof fn lemma_dec_value_times_1000_overflow(s: Seq<char>)
    ensures
        dec_value(s) * 1000 >= dec_value(s),
{
    crate::text::lemma_dec_value_nonneg(s);
}

/// The first three fractional digits as milliseconds, padded on the right.
fn frac_millis_exec(frac: &str) -> (r: u64)
    requires
        all_digits(frac@),
    ensures
        r == frac_millis(frac@),
{
    let len = frac.unicode_len();
    if len >= 3 {
        let t = frac.substring_char(0, 3);
        proof {
            assert(t@ =~= frac@.take(3));
            assert(all_digits(t@)) by {
                assert(forall|i: int| 0 <= i < 3 ==> frac@.take(3)[i] == frac@[i]);
            }
            lemma_pow10_3();
            lemma_dec_value_bound(t@);
        }
        match parse_u64_digits(t) {
            Some(v) => v,
            None => {
                proof {
                    assert(false);
                }
                0
            },
        }
    } else if len == 0 {
        0
    } else {
        proof {
            lemma_pow10_3();
            lemma_dec_value_bound(frac@);
        }
        match parse_u64_digits(frac) {
            Some(v) => if len == 2 {
                v * 10
            } else {
                v * 100
            },
            None => {
                proof {
                    assert(false);
                }
                0
            },
        }
    }
}

/// The diagnostic text for an external tool that exited non-zero, built
/// from its name, exit code and captured output.
pub open spec fn spec_commandline_error(
    command_name: Seq<char>,
    exit_code: int,
    stdout: Seq<char>,
    stderr: Seq<char>,
) -> Seq<char> {
    "command "@ + command_name + " failed with exit code "@ + dec_digits_signed(exit_code)
        + ", stdout:\n'"@ + stdout + "'\nstderr:\n'"@ + stderr + "'"@
}

/// Builds the diagnostic text for an external tool that exited non-zero.
pub fn commandline_error(command_name: &str, exit_code: i32, stdout: &str, stderr: &str) -> (m:
    String)
    ensures
        m@ == spec_commandline_error(command_name@, exit_code as int, stdout@, stderr@),
{
    let mut m = String::new();
    m.append("command ");
    m.append(command_name);
    m.append(" failed with exit code ");
    let code = i32_to_string(exit_code);
    m.append(code.as_str());
    m.append(", stdout:\n'");
    m.append(stdout);
    m.append("'\nstderr:\n'");
    m.append(stderr);
    m.append("'");
    proof {
        assert(m@ =~= spec_commandline_error(command_name@, exit_code as int, stdout@, stderr@));
    }
    m
}

/// The diagnostic text is never empty.
pub proof fn lemma_commandline_error_nonempty(
    command_name: Seq<char>,
    exit_code: int,
    stdout: Seq<char>,
    stderr: Seq<char>,
)
    ensures
        spec_commandline_error(command_name, exit_code, stdout, stderr).len() > 0,
{
    reveal_strlit("command ");
}

} // verus!
