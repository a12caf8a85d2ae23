use transcoder::collect::{codec_distribution, resolution_distribution, total_file_size, VideoFile};
use transcoder::database::{Database, NewTranscodeFile, TranscodeFile, TranscodeStatus};
use transcoder::error::{run_exit_code, TranscodeError};
use transcoder::ffprobe::{FfProbe, Format, Stream};
use transcoder::transcode::{
    conclude_encode, finalize_ledger_write, plan_file, render_command_line, select_candidates,
    sidecar_output_path, temp_output_path, EncodeOutcome, FilePlan, FinalizeAction, GpuMode,
    TranscodeOptions, Transcoder,
};

fn options() -> TranscodeOptions {
    TranscodeOptions {
        crf: 24,
        effort: 7,
        dry_run: false,
        replace: false,
        progress_hidden: true,
        ignored_codecs: vec![],
        gpu: None,
        parallel: 1,
    }
}

fn work_item(path: &str) -> VideoFile {
    VideoFile {
        rowid: 1,
        path: path.to_string(),
        duration_millis: 130500,
        resolution: (1920, 1080),
        bitrate: 5000,
        frame_rate: (30, 1),
        codec: "h264".to_string(),
        file_size: 1000,
    }
}

fn probed(path: &str, size: u64, codec: &str) -> NewTranscodeFile {
    let stream = Stream {
        codec_name: Some(codec.to_string()),
        codec_type: Some("video".to_string()),
        r_frame_rate: "30/1".to_string(),
        width: Some(1920),
        height: Some(1080),
        ..Stream::default()
    };
    let mut format = Format::default();
    format.duration = Some("10".to_string());
    NewTranscodeFile {
        path: path.to_string(),
        file_size: size,
        ffprobe_info: FfProbe { streams: vec![stream], format },
    }
}

#[test]
fn derives_output_paths() {
    assert_eq!("/a/b/movie_tmp.mp4", temp_output_path("/a/b/movie.mkv"));
    assert_eq!("/a/b/movie_av1.mp4", sidecar_output_path("/a/b/movie.mkv"));
}

#[test]
fn existing_sidecar_skips_without_ledger_write() {
    let file = work_item("/films/movie.mkv");
    let plan = plan_file(&file, &options(), true);
    assert!(matches!(plan, FilePlan::Skip));
}

#[test]
fn dry_run_credits_full_duration() {
    let file = work_item("/films/movie.mkv");
    let mut opts = options();
    opts.dry_run = true;
    let plan = plan_file(&file, &opts, false);
    match plan {
        FilePlan::DryRun { credit_millis } => assert_eq!(130500, credit_millis),
        _ => panic!("expected a dry-run plan"),
    }
}

#[test]
fn software_template_is_exact() {
    let file = work_item("/films/movie.mkv");
    let plan = plan_file(&file, &options(), false);
    match plan {
        FilePlan::Encode { args, tmp_path, out_path } => {
            assert_eq!("/films/movie_tmp.mp4", tmp_path);
            assert_eq!("/films/movie_av1.mp4", out_path);
            let expected: Vec<String> = [
                "-y", "-i", "/films/movie.mkv", "-c:v", "libsvtav1", "-preset", "7", "-crf",
                "24", "-c:a", "copy", "-progress", "-", "-nostats", "/films/movie_tmp.mp4",
            ]
            .iter()
            .map(|s| s.to_string())
            .collect();
            assert_eq!(expected, args);
        },
        _ => panic!("expected an encode plan"),
    }
}

#[test]
fn hardware_templates_are_exact() {
    let file = work_item("/films/movie.mkv");
    let mut opts = options();
    opts.gpu = Some(GpuMode::Nvidia);
    match plan_file(&file, &opts, false) {
        FilePlan::Encode { args, .. } => {
            let expected: Vec<String> = [
                "-y", "-i", "/films/movie.mkv", "-c:v", "av1_nvenc", "-preset", "p7", "-tune",
                "hq", "-cq", "24", "-rc-lookahead", "24", "-b_adapt", "1", "-temporal-aq", "1",
                "-spatial-aq", "1", "-c:a", "copy", "-progress", "-", "-nostats",
                "/films/movie_tmp.mp4",
            ]
            .iter()
            .map(|s| s.to_string())
            .collect();
            assert_eq!(expected, args);
        },
        _ => panic!("expected an encode plan"),
    }
    opts.gpu = Some(GpuMode::Qsv);
    match plan_file(&file, &opts, false) {
        FilePlan::Encode { args, .. } => {
            let expected: Vec<String> = [
                "-hwaccel", "qsv", "-y", "-i", "/films/movie.mkv", "-c:v", "av1_qsv",
                "-preset", "7", "-crf", "24", "-c:a", "copy", "-progress", "-", "-nostats",
                "/films/movie_tmp.mp4",
            ]
            .iter()
            .map(|s| s.to_string())
            .collect();
            assert_eq!(expected, args);
        },
        _ => panic!("expected an encode plan"),
    }
}

#[test]
fn renders_the_dry_run_command_line() {
    let args = vec![
        "-i".to_string(),
        "/films/two words.mkv".to_string(),
        "-nostats".to_string(),
    ];
    assert_eq!(
        "-i \"/films/two words.mkv\" -nostats",
        render_command_line(&args),
    );
    assert_eq!("", render_command_line(&vec![]));
}

#[test]
fn larger_output_is_discarded_without_ledger_write() {
    let outcome = EncodeOutcome::Completed { output_size: 1000 };
    let action = conclude_encode(1000, false, &outcome);
    assert!(matches!(action, FinalizeAction::DiscardLarger));
    let write = finalize_ledger_write(action, None);
    assert!(write.is_none());
}

#[test]
fn smaller_output_is_promoted() {
    let outcome = EncodeOutcome::Completed { output_size: 400 };
    assert!(matches!(
        conclude_encode(1000, false, &outcome),
        FinalizeAction::PromoteSidecar
    ));
    assert!(matches!(
        conclude_encode(1000, true, &outcome),
        FinalizeAction::PromoteReplace
    ));
    let write = finalize_ledger_write(FinalizeAction::PromoteSidecar, None);
    assert_eq!(Some((TranscodeStatus::Success, None)), write);
}

#[test]
fn finalize_failure_records_error() {
    let write = finalize_ledger_write(
        FinalizeAction::PromoteReplace,
        Some("rename failed".to_string()),
    );
    assert_eq!(
        Some((TranscodeStatus::Error, Some("rename failed".to_string()))),
        write,
    );
}

#[test]
fn encoder_failure_lands_in_the_ledger_and_stays_nonfatal() {
    let mut db = Database::in_memory().unwrap();
    db.insert(probed("/films/movie.mkv", 1000, "h264")).unwrap();
    let rows = db.list().unwrap();
    let files = select_candidates(&rows, &vec![]);
    assert_eq!(1, files.len());

    let mut orchestrator = Transcoder::new(db, options(), files);

    let outcome = EncodeOutcome::Failed {
        exit_code: 1,
        stdout: String::new(),
        stderr: "unsupported pixel format".to_string(),
    };
    let action = conclude_encode(1000, false, &outcome);
    let write = finalize_ledger_write(action, None);
    orchestrator.record_outcome(0, write).unwrap();

    let rows = orchestrator.database.list().unwrap();
    assert_eq!(TranscodeStatus::Error, rows[0].status);
    let message = rows[0].error_message.clone().unwrap();
    assert!(message.contains("unsupported pixel format"));

    // A per-file failure never turns into a fatal exit.
    let fatal: Option<TranscodeError> = None;
    assert_eq!(0, run_exit_code(&fatal));
    assert!(!TranscodeError::EncodeFailed(message).is_fatal());
}

#[test]
fn selection_passes_over_excluded_codecs_and_missing_probes() {
    let mut db = Database::in_memory().unwrap();
    db.insert(probed("/films/a.mkv", 900, "h264")).unwrap();
    db.insert(probed("/films/b.mkv", 800, "hevc")).unwrap();
    db.insert(probed("/films/c.mkv", 700, "mpeg2")).unwrap();
    let rows = db.list().unwrap();

    let ignored = vec!["hevc".to_string(), "av1".to_string()];
    let files = select_candidates(&rows, &ignored);
    let paths: Vec<&str> = files.iter().map(|f| f.path.as_str()).collect();
    assert_eq!(vec!["/films/a.mkv", "/films/c.mkv"], paths);
    assert_eq!(1, files[0].rowid);
    assert_eq!(10000, files[0].duration_millis);
    assert_eq!((1920, 1080), files[0].resolution);

    // A row whose probe metadata is absent is not eligible.
    let unprobed = TranscodeFile {
        rowid: 9,
        path: "/films/raw.mkv".to_string(),
        status: TranscodeStatus::Pending,
        created_on: 0,
        updated_on: 0,
        error_message: None,
        file_size: 50,
        ffprobe_info: None,
    };
    assert!(select_candidates(&vec![unprobed], &ignored).is_empty());
}

#[test]
fn difficulty_multiplies_the_derived_fields() {
    let file = work_item("/films/movie.mkv");
    // 1920*1080 pixels, 130 whole seconds, 5000 bits/s, 30 frames/s.
    assert_eq!(1920 * 1080 * 130 * 5000 * 30, file.difficulty());
    let extreme = VideoFile {
        bitrate: u64::MAX,
        duration_millis: u64::MAX,
        ..work_item("/films/movie.mkv")
    };
    assert_eq!(u64::MAX, extreme.difficulty());
}

#[test]
fn stats_count_codecs_and_resolutions() {
    let mut a = work_item("/films/a.mkv");
    a.codec = "h264".to_string();
    let mut b = work_item("/films/b.mkv");
    b.codec = "vp9".to_string();
    b.resolution = (1280, 720);
    let mut c = work_item("/films/c.mkv");
    c.codec = "h264".to_string();
    let files = vec![a, b, c];

    let codecs = codec_distribution(&files);
    assert_eq!(
        vec![("h264".to_string(), 2), ("vp9".to_string(), 1)],
        codecs,
    );
    let resolutions = resolution_distribution(&files);
    assert_eq!(vec![((1920, 1080), 2), ((1280, 720), 1)], resolutions);
    assert_eq!(3000, total_file_size(&files));
}

#[test]
fn total_duration_sums_the_batch() {
    let mut db = Database::in_memory().unwrap();
    db.insert(probed("/films/a.mkv", 900, "h264")).unwrap();
    db.insert(probed("/films/b.mkv", 800, "h264")).unwrap();
    let rows = db.list().unwrap();
    let files = select_candidates(&rows, &vec![]);
    let orchestrator = Transcoder::new(db, options(), files);
    assert_eq!(20000, orchestrator.total_duration_millis());
}
