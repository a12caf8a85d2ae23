//! The transcode orchestrator's decision core: candidate selection, the
//! encoder's argument templates, the per-file state machine from "selected"
//! to a finalize decision, and the ledger write each outcome demands. The
//! subprocess, the progress stream and the filesystem renames run outside
//! the library and feed their observations back in as plain values.

use vstd::prelude::*;

use crate::collect::{spec_video_file_of, VideoFile, VideoFileV};
use crate::database::{Database, TranscodeFile, TranscodeFileV, TranscodeStatus};
use crate::error::TranscodeError;
use crate::ffprobe::{spec_commandline_error, spec_video_codec, commandline_error};
use crate::paths::{file_stem, spec_file_stem, spec_with_file_name, with_file_name};
use crate::text::{contains_seq, dec_digits, str_contains, str_eq, u64_to_string};

verus! {

/// The hardware-acceleration modes the encoder can be driven in.
#[derive(Clone, Copy, PartialEq, Eq, Structural, Debug)]
pub enum GpuMode {
    Nvidia,
    Qsv,
}

/// Everything the orchestrator needs to know about one run.
pub struct TranscodeOptions {
    /// Quality parameter handed to the encoder.
    pub crf: u8,
    /// Effort/speed parameter handed to the encoder.
    pub effort: u8,
    /// Log the command and credit full progress, but run nothing.
    pub dry_run: bool,
    /// Replace the source in place instead of writing a sidecar file.
    pub replace: bool,
    /// Hide the progress display.
    pub progress_hidden: bool,
    /// Codecs that must not be re-encoded.
    pub ignored_codecs: Vec<String>,
    /// Hardware mode; software encoding when absent.
    pub gpu: Option<GpuMode>,
    /// Number of parallel workers.
    pub parallel: u32,
}

impl Clone for TranscodeOptions {
    fn clone(&self) -> (r: Self)
        ensures
            r.crf == self.crf,
            r.effort == self.effort,
            r.dry_run == self.dry_run,
            r.replace == self.replace,
            r.progress_hidden == self.progress_hidden,
            r.ignored_codecs@.map_values(|c: String| c@) == self.ignored_codecs@.map_values(
                |c: String| c@,
            ),
            r.gpu == self.gpu,
            r.parallel == self.parallel,
    {
        let mut codecs: Vec<String> = Vec::new();
        let mut i: usize = 0;
        while i < self.ignored_codecs.len()
            invariant
                0 <= i <= self.ignored_codecs@.len(),
                codecs@.map_values(|c: String| c@) =~= self.ignored_codecs@.map_values(
                    |c: String| c@,
                ).take(i as int),
            decreases self.ignored_codecs@.len() - i,
        {
            let ghost prev = codecs@.map_values(|c: String| c@);
            codecs.push(self.ignored_codecs[i].clone());
            i = i + 1;
            proof {
                assert(codecs@.map_values(|c: String| c@) =~= prev.push(
                    self.ignored_codecs@[i - 1]@,
                ));
                assert(prev.push(self.ignored_codecs@[i - 1]@) =~= self.ignored_codecs@.map_values(
                    |c: String| c@,
                ).take(i as int));
            }
        }
        proof {
            assert(self.ignored_codecs@.map_values(|c: String| c@).take(
                self.ignored_codecs@.len() as int,
            ) =~= self.ignored_codecs@.map_values(|c: String| c@));
        }
        TranscodeOptions {
            crf: self.crf,
            effort: self.effort,
            dry_run: self.dry_run,
            replace: self.replace,
            progress_hidden: self.progress_hidden,
            ignored_codecs: codecs,
            gpu: self.gpu,
            parallel: self.parallel,
        }
    }
}

// ---------------------------------------------------------------------------
// Output paths
// ---------------------------------------------------------------------------

/// The temporary output path: the source with `_tmp.mp4` in place of its
/// extension.
pub open spec fn spec_temp_output(p: Seq<char>) -> Seq<char> {
    spec_with_file_name(p, spec_file_stem(p) + "_tmp.mp4"@)
}

/// The sidecar output path: the source with `_av1.mp4` in place of its
/// extension.
pub open spec fn spec_sidecar_output(p: Seq<char>) -> Seq<char> {
    spec_with_file_name(p, spec_file_stem(p) + "_av1.mp4"@)
}

/// The temporary output path for a source file.
pub fn temp_output_path(path: &str) -> (r: String)
    ensures
        r@ == spec_temp_output(path@),
{
    let stem = file_stem(path);
    let name = stem.to_owned().concat("_tmp.mp4");
    with_file_name(path, name.as_str())
}

/// The sidecar output path for a source file.
pub fn sidecar_output_path(path: &str) -> (r: String)
    ensures
        r@ == spec_sidecar_output(path@),
{
    let stem = file_stem(path);
    let name = stem.to_owned().concat("_av1.mp4");
    with_file_name(path, name.as_str())
}

// ---------------------------------------------------------------------------
// Argument templates
// ---------------------------------------------------------------------------

/// The views of an argument vector.
pub open spec fn args_view(v: Seq<String>) -> Seq<Seq<char>> {
    v.map_values(|s: String| s@)
}

/// The argument template for the vendor-specific accelerated path.
pub open spec fn spec_nvidia_args(src: Seq<char>, tmp: Seq<char>, crf: Seq<char>) -> Seq<
    Seq<char>,
> {
    seq![
        "-y"@,
        "-i"@,
        src,
        "-c:v"@,
        "av1_nvenc"@,
        "-preset"@,
        "p7"@,
        "-tune"@,
        "hq"@,
        "-cq"@,
        crf,
        "-rc-lookahead"@,
        "24"@,
        "-b_adapt"@,
        "1"@,
        "-temporal-aq"@,
        "1"@,
        "-spatial-aq"@,
        "1"@,
        "-c:a"@,
        "copy"@,
        "-progress"@,
        "-"@,
        "-nostats"@,
        tmp,
    ]
}

/// The argument template for the alternate hardware path.
pub open spec fn spec_qsv_args(
    src: Seq<char>,
    tmp: Seq<char>,
    crf: Seq<char>,
    effort: Seq<char>,
) -> Seq<Seq<char>> {
    seq![
        "-hwaccel"@,
        "qsv"@,
        "-y"@,
        "-i"@,
        src,
        "-c:v"@,
        "av1_qsv"@,
        "-preset"@,
        effort,
        "-crf"@,
        crf,
        "-c:a"@,
        "copy"@,
        "-progress"@,
        "-"@,
        "-nostats"@,
        tmp,
    ]
}

/// The argument template for the software path.
pub open spec fn spec_software_args(
    src: Seq<char>,
    tmp: Seq<char>,
    crf: Seq<char>,
    effort: Seq<char>,
) -> Seq<Seq<char>> {
    seq![
        "-y"@,
        "-i"@,
        src,
        "-c:v"@,
        "libsvtav1"@,
        "-preset"@,
        effort,
        "-crf"@,
        crf,
        "-c:a"@,
        "copy"@,
        "-progress"@,
        "-"@,
        "-nostats"@,
        tmp,
    ]
}

/// The encoder arguments for a hardware mode, with the quality and effort
/// values rendered in base ten.
pub open spec fn spec_encoder_args(
    gpu: Option<GpuMode>,
    src: Seq<char>,
    tmp: Seq<char>,
    crf: u8,
    effort: u8,
) -> Seq<Seq<char>> {
    match gpu {
        Some(GpuMode::Nvidia) => spec_nvidia_args(src, tmp, dec_digits(crf as nat)),
        Some(GpuMode::Qsv) => spec_qsv_args(
            src,
            tmp,
            dec_digits(crf as nat),
            dec_digits(effort as nat),
        ),
        None => spec_software_args(src, tmp, dec_digits(crf as nat), dec_digits(effort as nat)),
    }
}

fn nvidia_args(src: &str, tmp: &str, crf: &str) -> (r: Vec<String>)
    ensures
        args_view(r@) == spec_nvidia_args(src@, tmp@, crf@),
{
    let mut r: Vec<String> = Vec::new();
    r.push(String::from_str("-y"));
    r.push(String::from_str("-i"));
    r.push(String::from_str(src));
    r.push(String::from_str("-c:v"));
    r.push(String::from_str("av1_nvenc"));
    r.push(String::from_str("-preset"));
    r.push(String::from_str("p7"));
    r.push(String::from_str("-tune"));
    r.push(String::from_str("hq"));
    r.push(String::from_str("-cq"));
    r.push(String::from_str(crf));
    r.push(String::from_str("-rc-lookahead"));
    r.push(String::from_str("24"));
    r.push(String::from_str("-b_adapt"));
    r.push(String::from_str("1"));
    r.push(String::from_str("-temporal-aq"));
    r.push(String::from_str("1"));
    r.push(String::from_str("-spatial-aq"));
    r.push(String::from_str("1"));
    r.push(String::from_str("-c:a"));
    r.push(String::from_str("copy"));
    r.push(String::from_str("-progress"));
    r.push(String::from_str("-"));
    r.push(String::from_str("-nostats"));
    r.push(String::from_str(tmp));
    proof {
        assert(args_view(r@) =~= spec_nvidia_args(src@, tmp@, crf@));
    }
    r
}

fn qsv_args(src: &str, tmp: &str, crf: &str, effort: &str) -> (r: Vec<String>)
    ensures
        args_view(r@) == spec_qsv_args(src@, tmp@, crf@, effort@),
{
    let mut r: Vec<String> = Vec::new();
    r.push(String::from_str("-hwaccel"));
    r.push(String::from_str("qsv"));
    r.push(String::from_str("-y"));
    r.push(String::from_str("-i"));
    r.push(String::from_str(src));
    r.push(String::from_str("-c:v"));
    r.push(String::from_str("av1_qsv"));
    r.push(String::from_str("-preset"));
    r.push(String::from_str(effort));
    r.push(String::from_str("-crf"));
    r.push(String::from_str(crf));
    r.push(String::from_str("-c:a"));
    r.push(String::from_str("copy"));
    r.push(String::from_str("-progress"));
    r.push(String::from_str("-"));
    r.push(String::from_str("-nostats"));
    r.push(String::from_str(tmp));
    proof {
        assert(args_view(r@) =~= spec_qsv_args(src@, tmp@, crf@, effort@));
    }
    r
}

fn software_args(src: &str, tmp: &str, crf: &str, effort: &str) -> (r: Vec<String>)
    ensures
        args_view(r@) == spec_software_args(src@, tmp@, crf@, effort@),
{
    let mut r: Vec<String> = Vec::new();
    r.push(String::from_str("-y"));
    r.push(String::from_str("-i"));
    r.push(String::from_str(src));
    r.push(String::from_str("-c:v"));
    r.push(String::from_str("libsvtav1"));
    r.push(String::from_str("-preset"));
    r.push(String::from_str(effort));
    r.push(String::from_str("-crf"));
    r.push(String::from_str(crf));
    r.push(String::from_str("-c:a"));
    r.push(String::from_str("copy"));
    r.push(String::from_str("-progress"));
    r.push(String::from_str("-"));
    r.push(String::from_str("-nostats"));
    r.push(String::from_str(tmp));
    proof {
        assert(args_view(r@) =~= spec_software_args(src@, tmp@, crf@, effort@));
    }
    r
}

/// Builds the full encoder argument vector for one source file.
pub fn build_encoder_args(
    gpu: &Option<GpuMode>,
    src: &str,
    tmp: &str,
    crf: u8,
    effort: u8,
) -> (r: Vec<String>)
    ensures
        args_view(r@) == spec_encoder_args(*gpu, src@, tmp@, crf, effort),
{
    let crf_text = u64_to_string(crf as u64);
    let effort_text = u64_to_string(effort as u64);
    match gpu {
        Some(GpuMode::Nvidia) => nvidia_args(src, tmp, crf_text.as_str()),
        Some(GpuMode::Qsv) => qsv_args(src, tmp, crf_text.as_str(), effort_text.as_str()),
        None => software_args(src, tmp, crf_text.as_str(), effort_text.as_str()),
    }
}

/// An argument as the log shows it: wrapped in double quotes when it
/// holds a space.
pub open spec fn spec_quoted_arg(s: Seq<char>) -> Seq<char> {
    if contains_seq(s, seq![' ']) {
        seq!['"'] + s + seq!['"']
    } else {
        s
    }
}

/// A whole argument vector as one loggable line, space-separated with the
/// space-holding arguments quoted.
pub open spec fn spec_command_line(args: Seq<Seq<char>>) -> Seq<char>
    decreases args.len(),
{
    if args.len() == 0 {
        Seq::<char>::empty()
    } else if args.len() == 1 {
        spec_quoted_arg(args[0])
    } else {
        spec_command_line(args.drop_last()) + seq![' '] + spec_quoted_arg(args.last())
    }
}

/// One argument as the log shows it.
fn quoted_arg(arg: &str) -> (r: String)
    ensures
        r@ == spec_quoted_arg(arg@),
{
    proof {
        reveal_strlit(" ");
        reveal_strlit("\"");
        assert(" "@ =~= seq![' ']);
        assert("\""@ =~= seq!['"']);
    }
    if str_contains(arg, " ") {
        let mut r = String::from_str("\"");
        r.append(arg);
        r.append("\"");
        proof {
            assert(contains_seq(arg@, seq![' ']));
            assert(r@ =~= spec_quoted_arg(arg@));
        }
        r
    } else {
        assert(!contains_seq(arg@, seq![' ']));
        arg.to_owned()
    }
}

/// Renders an argument vector as the one line a dry run logs.
pub fn render_command_line(args: &Vec<String>) -> (r: String)
    ensures
        r@ == spec_command_line(args_view(args@)),
{
    proof {
        reveal_strlit(" ");
        assert(" "@ =~= seq![' ']);
    }
    let ghost avs = args_view(args@);
    let mut r = String::new();
    let mut i: usize = 0;
    while i < args.len()
        invariant
            0 <= i <= args@.len(),
            avs == args_view(args@),
            r@ == spec_command_line(avs.take(i as int)),
        decreases args@.len() - i,
    {
        proof {
            reveal_strlit(" ");
            assert(" "@ =~= seq![' ']);
            assert(avs.take(i + 1).drop_last() =~= avs.take(i as int));
            assert(avs.take(i + 1).last() == avs[i as int]);
        }
        let q = quoted_arg(args[i].as_str());
        proof {
            assert(avs[i as int] == args@[i as int]@);
            assert(q@ == spec_quoted_arg(avs[i as int]));
        }
        if i > 0 {
            r.append(" ");
        }
        r.append(q.as_str());
        proof {
            if i == 0 {
                assert(avs.take(1).len() == 1);
                assert(avs.take(1)[0] == avs[0]);
                assert(r@ =~= spec_quoted_arg(avs[0]));
                assert(r@ =~= spec_command_line(avs.take(1)));
            } else {
                assert(r@ =~= spec_command_line(avs.take(i as int)) + seq![' ']
                    + spec_quoted_arg(avs[i as int]));
            }
        }
        i = i + 1;
    }
    proof {
        assert(avs.take(args@.len() as int) =~= avs);
    }
    r
}

// ---------------------------------------------------------------------------
// The per-file state machine
// ---------------------------------------------------------------------------

/// What is to be done with one selected file.
pub enum FilePlan {
    /// The sidecar output already exists: the file is already done, the
    /// encoder is not run, and the ledger is left untouched.
    Skip,
    /// Dry run: the command is only logged and the file's full expected
    /// duration is credited to the aggregate progress.
    DryRun { credit_millis: u64 },
    /// Run the encoder with these arguments, writing to the temporary
    /// path, with the sidecar path as the eventual output name.
    Encode { args: Vec<String>, tmp_path: String, out_path: String },
}

/// Decides what to do with one selected file. A file whose sidecar output
/// already exists is never passed to the encoder and causes no ledger
/// write; a dry run credits the full expected duration and runs nothing;
/// otherwise the encoder is invoked with the exact template for the
/// configured hardware mode.
pub fn plan_file(file: &VideoFile, options: &TranscodeOptions, sidecar_exists: bool) -> (p:
    FilePlan)
    ensures
        sidecar_exists ==> p is Skip,
        !sidecar_exists && options.dry_run ==> (p matches FilePlan::DryRun { credit_millis }
            && credit_millis == file@.duration_millis),
        !sidecar_exists && !options.dry_run ==> (p matches FilePlan::Encode {
            args,
            tmp_path,
            out_path,
        } && args_view(args@) == spec_encoder_args(
            options.gpu,
            file@.path,
            spec_temp_output(file@.path),
            options.crf,
            options.effort,
        ) && tmp_path@ == spec_temp_output(file@.path) && out_path@ == spec_sidecar_output(
            file@.path,
        )),
{
    if sidecar_exists {
        return FilePlan::Skip;
    }
    if options.dry_run {
        return FilePlan::DryRun { credit_millis: file.duration_millis };
    }
    let tmp = temp_output_path(file.path.as_str());
    let out = sidecar_output_path(file.path.as_str());
    let args = build_encoder_args(&options.gpu, file.path.as_str(), tmp.as_str(), options.crf,
        options.effort);
    FilePlan::Encode { args, tmp_path: tmp, out_path: out }
}

/// How one encoder invocation ended, as observed by the caller.
pub enum EncodeOutcome {
    /// The encoder exited zero and left a temporary file of this size.
    Completed { output_size: u64 },
    /// The encoder exited non-zero with this code and captured output.
    Failed { exit_code: i32, stdout: String, stderr: String },
}

/// What to do once the encoder has exited.
pub enum FinalizeAction {
    /// The output is not smaller than the source: remove the temporary
    /// file and write nothing to the ledger.
    DiscardLarger,
    /// Delete the source and rename the temporary file onto it.
    PromoteReplace,
    /// Rename the temporary file to the sidecar output path.
    PromoteSidecar,
    /// Record the failure against this file and go on with the batch.
    RecordError { message: String },
}

/// Decides how to finalize one finished encode. A zero exit whose output
/// is not smaller than the original discards the temporary file without
/// any ledger write; a smaller output is promoted in place or to the
/// sidecar name; a non-zero exit becomes an error record carrying the
/// tool's diagnostic output.
pub fn conclude_encode(original_size: u64, replace: bool, outcome: &EncodeOutcome) -> (a:
    FinalizeAction)
    ensures
        match outcome {
            EncodeOutcome::Completed { output_size } => a == if output_size >= original_size {
                FinalizeAction::DiscardLarger
            } else if replace {
                FinalizeAction::PromoteReplace
            } else {
                FinalizeAction::PromoteSidecar
            },
            EncodeOutcome::Failed { exit_code, stdout, stderr } => (a
                matches FinalizeAction::RecordError { message } && message@
                == spec_commandline_error("ffmpeg"@, *exit_code as int, stdout@, stderr@)),
        },
{
    match outcome {
        EncodeOutcome::Completed { output_size } => {
            if *output_size >= original_size {
                FinalizeAction::DiscardLarger
            } else if replace {
                FinalizeAction::PromoteReplace
            } else {
                FinalizeAction::PromoteSidecar
            }
        },
        EncodeOutcome::Failed { exit_code, stdout, stderr } => {
            let message = commandline_error("ffmpeg", *exit_code, stdout.as_str(),
                stderr.as_str());
            FinalizeAction::RecordError { message }
        },
    }
}

/// The ledger write one finalize step demands, after the filesystem has
/// done (or failed) its part. A discarded output writes nothing; a
/// promotion that went through records Success with no message; a rename
/// or delete failure, like an encode failure, records Error with the
/// underlying message.
pub fn finalize_ledger_write(action: FinalizeAction, fs_error: Option<String>) -> (w: Option<
    (TranscodeStatus, Option<String>),
>)
    requires
        match action {
            FinalizeAction::RecordError { message } => message@.len() > 0 && fs_error is None,
            FinalizeAction::DiscardLarger => fs_error is None,
            _ => match fs_error {
                Some(m) => m@.len() > 0,
                None => true,
            },
        },
    ensures
        match action {
            FinalizeAction::DiscardLarger => w is None,
            FinalizeAction::RecordError { message } => (w matches Some((st, msg)) && st
                is Error && (msg matches Some(m) && m@ == message@)),
            _ => match fs_error {
                None => (w matches Some((st, msg)) && st is Success && msg is None),
                Some(e) => (w matches Some((st, msg)) && st is Error && (msg matches Some(m) && m@
                    == e@)),
            },
        },
{
    match action {
        FinalizeAction::DiscardLarger => None,
        FinalizeAction::RecordError { message } => Some(
            (TranscodeStatus::Error, Some(message)),
        ),
        _ => match fs_error {
            None => Some((TranscodeStatus::Success, None)),
            Some(e) => Some((TranscodeStatus::Error, Some(e))),
        },
    }
}

// ---------------------------------------------------------------------------
// Selection
// ---------------------------------------------------------------------------

/// The rows eligible for transcoding: probe metadata present and the
/// probed codec not in the exclusion set, in listing order, reduced to
/// work items.
pub open spec fn spec_selected(rows: Seq<TranscodeFileV>, ignored: Seq<Seq<char>>) -> Seq<
    VideoFileV,
> {
    rows.filter(
        |t: TranscodeFileV|
            t.ffprobe_info is Some && !ignored.contains(
                spec_video_codec(t.ffprobe_info.unwrap()),
            ),
    ).map_values(|t: TranscodeFileV| spec_video_file_of(t))
}

/// How the selection grows when one more row is considered.
proof fn lemma_selected_step(rows: Seq<TranscodeFileV>, ignored: Seq<Seq<char>>, i: int)
    requires
        0 <= i < rows.len(),
    ensures
        spec_selected(rows.take(i + 1), ignored) == if rows[i].ffprobe_info is Some
            && !ignored.contains(spec_video_codec(rows[i].ffprobe_info.unwrap())) {
            spec_selected(rows.take(i), ignored).push(spec_video_file_of(rows[i]))
        } else {
            spec_selected(rows.take(i), ignored)
        },
{
    reveal(Seq::filter);
    let pred = |t: TranscodeFileV|
        t.ffprobe_info is Some && !ignored.contains(spec_video_codec(t.ffprobe_info.unwrap()));
    let t = rows.take(i + 1);
    assert(t.len() == i + 1);
    assert(t.drop_last() =~= rows.take(i));
    assert(t.last() == rows[i]);
    assert(t.filter(pred) == if pred(rows[i]) {
        rows.take(i).filter(pred).push(rows[i])
    } else {
        rows.take(i).filter(pred)
    });
    if pred(rows[i]) {
        assert(t.filter(pred).map_values(|x: TranscodeFileV| spec_video_file_of(x)) =~= rows.take(
            i,
        ).filter(pred).map_values(|x: TranscodeFileV| spec_video_file_of(x)).push(
            spec_video_file_of(rows[i]),
        ));
    }
}

/// Whether `s` equals one of the strings in `list`.
fn str_in_list(s: &str, list: &Vec<String>) -> (r: bool)
    ensures
        r == list@.map_values(|c: String| c@).contains(s@),
{
    let ghost views = list@.map_values(|c: String| c@);
    let mut i: usize = 0;
    while i < list.len()
        invariant
            0 <= i <= list@.len(),
            views == list@.map_values(|c: String| c@),
            forall|j: int| 0 <= j < i ==> views[j] != s@,
        decreases list@.len() - i,
    {
        if str_eq(list[i].as_str(), s) {
            proof {
                assert(views[i as int] == s@);
            }
            return true;
        }
        i = i + 1;
    }
    proof {
        if views.contains(s@) {
            let w = choose|w: int| 0 <= w < views.len() && views[w] == s@;
            assert(views[w] != s@);
        }
    }
    false
}

/// Reduces listed rows to the work items eligible for transcoding: rows
/// without probe metadata and rows whose codec is in the exclusion set
/// are passed over.
pub fn select_candidates(rows: &Vec<TranscodeFile>, ignored_codecs: &Vec<String>) -> (r: Vec<
    VideoFile,
>)
    requires
        forall|i: int| 0 <= i < rows@.len() ==> (#[trigger] rows@[i])@.file_size >= 0,
    ensures
        r@.map_values(|v: VideoFile| v@) == spec_selected(
            rows@.map_values(|t: TranscodeFile| t@),
            ignored_codecs@.map_values(|c: String| c@),
        ),
{
    let ghost rvs = rows@.map_values(|t: TranscodeFile| t@);
    let ghost ign = ignored_codecs@.map_values(|c: String| c@);
    let mut r: Vec<VideoFile> = Vec::new();
    let mut i: usize = 0;
    while i < rows.len()
        invariant
            0 <= i <= rows@.len(),
            rvs == rows@.map_values(|t: TranscodeFile| t@),
            ign == ignored_codecs@.map_values(|c: String| c@),
            r@.map_values(|v: VideoFile| v@) == spec_selected(rvs.take(i as int), ign),
            forall|k: int| 0 <= k < rows@.len() ==> (#[trigger] rows@[k])@.file_size >= 0,
        decreases rows@.len() - i,
    {
        let row = &rows[i];
        proof {
            assert(rvs[i as int] == rows@[i as int]@);
            lemma_selected_step(rvs, ign, i as int);
        }
        let eligible = match &row.ffprobe_info {
            Some(p) => !str_in_list(p.video_codec(), ignored_codecs),
            None => false,
        };
        if eligible {
            let ghost prev = r@.map_values(|v: VideoFile| v@);
            r.push(VideoFile::from(row));
            proof {
                assert(r@.map_values(|v: VideoFile| v@) =~= prev.push(
                    spec_video_file_of(rvs[i as int]),
                ));
            }
        }
        i = i + 1;
    }
    proof {
        assert(rvs.take(rows@.len() as int) =~= rvs);
    }
    r
}

// ---------------------------------------------------------------------------
// The orchestrator
// ---------------------------------------------------------------------------

/// The sum of the expected durations of a set of work items.
pub open spec fn spec_total_duration(files: Seq<VideoFileV>) -> int
    decreases files.len(),
{
    if files.len() == 0 {
        0
    } else {
        spec_total_duration(files.drop_last()) + files.last().duration_millis
    }
}

/// The total expected duration of a run in milliseconds, held at the
/// `u64` ceiling.
pub fn total_duration_millis(files: &Vec<VideoFile>) -> (t: u64)
    ensures
        t == crate::collect::clip64(spec_total_duration(files@.map_values(|v: VideoFile| v@))),
{
    let ghost fvs = files@.map_values(|v: VideoFile| v@);
    let mut total: u64 = 0;
    let mut i: usize = 0;
    while i < files.len()
        invariant
            0 <= i <= files@.len(),
            fvs == files@.map_values(|v: VideoFile| v@),
            total == crate::collect::clip64(spec_total_duration(fvs.take(i as int))),
        decreases files@.len() - i,
    {
        proof {
            assert(fvs.take(i + 1).drop_last() =~= fvs.take(i as int));
            assert(fvs.take(i + 1).last() == fvs[i as int]);
            lemma_total_duration_nonneg(fvs.take(i as int));
        }
        total = match total.checked_add(files[i].duration_millis) {
            Some(v) => v,
            None => u64::MAX,
        };
        i = i + 1;
    }
    proof {
        assert(fvs.take(files@.len() as int) =~= fvs);
    }
    total
}

/// The transcode orchestrator: the selected work items, the run options,
/// and the ledger the outcomes are recorded in.
pub struct Transcoder {
    pub options: TranscodeOptions,
    pub files: Vec<VideoFile>,
    pub database: Database,
}

impl Transcoder {
    /// An orchestrator over the given ledger, options and work items.
    pub fn new(database: Database, options: TranscodeOptions, files: Vec<VideoFile>) -> (t:
        Transcoder)
        ensures
            t.database@ == database@,
            t.files@.map_values(|v: VideoFile| v@) == files@.map_values(|v: VideoFile| v@),
            t.files@.len() == files@.len(),
            t.options.crf == options.crf,
            t.options.effort == options.effort,
            t.options.dry_run == options.dry_run,
            t.options.replace == options.replace,
            t.options.progress_hidden == options.progress_hidden,
            t.options.gpu == options.gpu,
            t.options.parallel == options.parallel,
            t.options.ignored_codecs@.map_values(|c: String| c@) == options.ignored_codecs@
                .map_values(|c: String| c@),
    {
        Transcoder { options, files, database }
    }

    /// The total expected duration of the run in milliseconds, held at
    /// the `u64` ceiling.
    pub fn total_duration_millis(&self) -> (t: u64)
        ensures
            t == crate::collect::clip64(
                spec_total_duration(self.files@.map_values(|v: VideoFile| v@)),
            ),
    {
        total_duration_millis(&self.files)
    }

    /// Decides what to do with the work item at `index`, given whether
    /// its sidecar output already exists.
    pub fn plan_for(&self, index: usize, sidecar_exists: bool) -> (p: FilePlan)
        requires
            index < self.files@.len(),
        ensures
            sidecar_exists ==> p is Skip,
            !sidecar_exists && self.options.dry_run ==> (p matches FilePlan::DryRun {
                credit_millis,
            } && credit_millis == self.files@[index as int]@.duration_millis),
            !sidecar_exists && !self.options.dry_run ==> (p matches FilePlan::Encode {
                args,
                tmp_path,
                out_path,
            } && args_view(args@) == spec_encoder_args(
                self.options.gpu,
                self.files@[index as int]@.path,
                spec_temp_output(self.files@[index as int]@.path),
                self.options.crf,
                self.options.effort,
            ) && tmp_path@ == spec_temp_output(self.files@[index as int]@.path) && out_path@
                == spec_sidecar_output(self.files@[index as int]@.path)),
    {
        plan_file(&self.files[index], &self.options, sidecar_exists)
    }

    /// Records the ledger write one file's outcome demands: nothing for a
    /// skipped or discarded file, Success or Error otherwise. The row id
    /// comes from the ledger itself, so it must name an existing row.
    pub fn record_outcome(&mut self, index: usize, write: Option<(TranscodeStatus, Option<String>)>)
        -> (r: Result<(), TranscodeError>)
        requires
            old(self).database.wf(),
            index < old(self).files@.len(),
            match write {
                Some((st, msg)) => {
                    &&& 1 <= old(self).files@[index as int]@.rowid <= old(self).database@.len()
                    &&& (st is Success || st is Error)
                    &&& (st is Error ==> (msg matches Some(m) && m@.len() > 0))
                    &&& (st is Success ==> msg is None)
                },
                None => true,
            },
        ensures
            final(self).database.wf(),
            final(self).files@ == old(self).files@,
            r is Ok,
            match write {
                None => final(self).database@ == old(self).database@,
                Some((st, msg)) => {
                    let rowid = old(self).files@[index as int]@.rowid;
                    let db = final(self).database@;
                    let olddb = old(self).database@;
                    let row = db[rowid - 1];
                    let was = olddb[rowid - 1];
                    &&& db.len() == olddb.len()
                    &&& forall|i: int|
                        0 <= i < db.len() && i != rowid - 1 ==> #[trigger] db[i] == olddb[i]
                    &&& row.status == st
                    &&& row.path == was.path
                    &&& row.updated_on >= was.updated_on
                    &&& row.error_message == match st {
                        TranscodeStatus::Success => None::<Seq<char>>,
                        _ => crate::database::opt_str_view(msg),
                    }
                },
            },
    {
        match write {
            None => Ok(()),
            Some((status, message)) => {
                let rowid = self.files[index].rowid;
                self.database.set_file_status(rowid, status, message)
            },
        }
    }
}

proof fn lemma_total_duration_nonneg(files: Seq<VideoFileV>)
    ensures
        spec_total_duration(files) >= 0,
    decreases files.len(),
{
    if files.len() > 0 {
        lemma_total_duration_nonneg(files.drop_last());
    }
}

} // verus!
