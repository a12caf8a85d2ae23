use transcoder::collect::{is_candidate_file, Collector};
use transcoder::database::{Database, NewTranscodeFile};
use transcoder::ffprobe::{FfProbe, Format, Stream};
use transcoder::scheduler::{drive_pool, WorkerPool};

fn with_codec(path: &str, codec: &str) -> NewTranscodeFile {
    let stream = Stream {
        codec_name: Some(codec.to_string()),
        codec_type: Some("video".to_string()),
        ..Stream::default()
    };
    NewTranscodeFile {
        path: path.to_string(),
        file_size: 10,
        ffprobe_info: FfProbe { streams: vec![stream], format: Format::default() },
    }
}

#[test]
fn two_workers_never_run_three_subprocesses() {
    // Five equal files through a pool of two: at most two live at once.
    assert_eq!(2, drive_pool(2, 5));
}

#[test]
fn fewer_files_than_workers() {
    assert_eq!(3, drive_pool(8, 3));
    assert_eq!(0, drive_pool(4, 0));
}

#[test]
fn zero_parallelism_means_one_worker() {
    assert_eq!(1, drive_pool(0, 5));
}

#[test]
fn the_pool_refuses_a_start_beyond_the_bound() {
    let mut pool = WorkerPool::new(2);
    assert!(pool.try_start());
    assert!(pool.try_start());
    assert!(!pool.try_start());
    assert_eq!(2, pool.live);
    pool.finish();
    assert_eq!(1, pool.live);
    assert!(pool.try_start());
    assert_eq!(2, pool.live);
}

#[test]
fn collector_rules_pick_candidates() {
    assert!(is_candidate_file("/films/movie.mkv", 100, &None));
    assert!(is_candidate_file("/films/movie.mp4", 100, &None));
    assert!(!is_candidate_file("/films/notes.txt", 100, &None));
    // An in-flight temporary artifact is never re-ingested.
    assert!(!is_candidate_file("/films/movie_tmp.mp4", 100, &None));
    // The minimum size is strict.
    assert!(!is_candidate_file("/films/movie.mkv", 100, &Some(100)));
    assert!(is_candidate_file("/films/movie.mkv", 101, &Some(100)));
}

#[test]
fn collector_exclusion_is_substring_based() {
    let db = Database::in_memory().unwrap();
    let collector = Collector::new(
        db,
        "/films".to_string(),
        vec!["sample".to_string()],
        None,
    );
    assert!(collector.is_excluded("/films/samples/clip.mkv"));
    assert!(!collector.is_excluded("/films/movie.mkv"));
}

#[test]
fn ingest_drops_already_encoded_codecs() {
    let db = Database::in_memory().unwrap();
    let mut collector = Collector::new(db, "/films".to_string(), vec![], None);
    let kept = collector
        .ingest_probed(vec![
            with_codec("/films/a.mkv", "h264"),
            with_codec("/films/b.mkv", "av1"),
            with_codec("/films/c.mkv", "hevc"),
            with_codec("/films/d.mkv", "vp9"),
        ])
        .unwrap();
    assert_eq!(vec!["/films/a.mkv".to_string(), "/films/d.mkv".to_string()], kept);
}
