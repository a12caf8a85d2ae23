use transcoder::database::{Database, NewTranscodeFile, TranscodeStatus};
use transcoder::ffprobe::FfProbe;

fn new_file(path: &str, file_size: u64) -> NewTranscodeFile {
    NewTranscodeFile {
        path: path.to_string(),
        file_size,
        ffprobe_info: FfProbe::default(),
    }
}

#[test]
fn test_insert_row() {
    let mut db = Database::in_memory().unwrap();

    db.insert(new_file("/stuff/1.mp4", 696969)).unwrap();

    let rows = db.list().unwrap();
    assert_eq!(1, rows.len());
    assert_eq!(696969, rows[0].file_size);
}

#[test]
fn test_insert_batch() {
    let mut db = Database::in_memory().unwrap();

    let files: Vec<_> = (0..100)
        .map(|i| new_file(&format!("/stuff/{i}.mp4"), 69 * i))
        .collect();

    db.insert_batch(&files).unwrap();
    db.insert_batch(&files).unwrap();

    let actual = db.list().unwrap();
    assert_eq!(100, actual.len());
}

#[test]
fn test_insert_duplicate_path() {
    let mut db = Database::in_memory().unwrap();

    db.insert(new_file("/1.mp4", 5)).unwrap();

    let error = db.insert(new_file("/1.mp4", 5));

    assert!(error.is_err());
    let err = error.unwrap_err();
    assert!(err.message().contains("UNIQUE constraint failed"));
}

#[test]
fn list_orders_biggest_first() {
    let mut db = Database::in_memory().unwrap();
    db.insert(new_file("/a.mp4", 500)).unwrap();
    db.insert(new_file("/b.mp4", 100)).unwrap();
    db.insert(new_file("/c.mp4", 900)).unwrap();

    let rows = db.list().unwrap();
    let sizes: Vec<i64> = rows.iter().map(|r| r.file_size).collect();
    assert_eq!(vec![900, 500, 100], sizes);
}

#[test]
fn list_limit_caps_rows() {
    let mut db = Database::in_memory().unwrap();
    db.insert(new_file("/a.mp4", 500)).unwrap();
    db.insert(new_file("/b.mp4", 100)).unwrap();
    db.insert(new_file("/c.mp4", 900)).unwrap();

    let rows = db.list_limit(Some(2)).unwrap();
    let sizes: Vec<i64> = rows.iter().map(|r| r.file_size).collect();
    assert_eq!(vec![900, 500], sizes);

    // A negative count means no limit, as the store treats it.
    let all = db.list_limit(Some(-1)).unwrap();
    assert_eq!(3, all.len());
}

#[test]
fn duplicate_batch_paths_keep_one_row() {
    let mut db = Database::in_memory().unwrap();
    let batch = vec![
        new_file("/same.mp4", 10),
        new_file("/same.mp4", 20),
        new_file("/other.mp4", 30),
    ];
    db.insert_batch(&batch).unwrap();
    db.insert_batch(&batch).unwrap();

    let rows = db.list().unwrap();
    let count = rows.iter().filter(|r| r.path == "/same.mp4").count();
    assert_eq!(1, count);
    assert_eq!(2, rows.len());
    // The first row of a duplicated path wins.
    let same = rows.iter().find(|r| r.path == "/same.mp4").unwrap();
    assert_eq!(10, same.file_size);
}

#[test]
fn fresh_rows_are_pending() {
    let mut db = Database::in_memory().unwrap();
    db.insert(new_file("/a.mp4", 1)).unwrap();
    let rows = db.list().unwrap();
    assert_eq!(TranscodeStatus::Pending, rows[0].status);
    assert!(rows[0].error_message.is_none());
    assert_eq!(rows[0].created_on, rows[0].updated_on);
    assert_eq!(1, rows[0].rowid);
    assert!(rows[0].ffprobe().is_some());
}

#[test]
fn success_clears_error_message() {
    let mut db = Database::in_memory().unwrap();
    db.insert(new_file("/a.mp4", 1)).unwrap();

    db.set_file_status(1, TranscodeStatus::Success, None).unwrap();

    let rows = db.list().unwrap();
    assert_eq!(TranscodeStatus::Success, rows[0].status);
    assert!(rows[0].error_message.is_none());
    assert!(rows[0].updated_on >= rows[0].created_on);
}

#[test]
fn error_keeps_its_message() {
    let mut db = Database::in_memory().unwrap();
    db.insert(new_file("/a.mp4", 1)).unwrap();

    db.set_file_status(1, TranscodeStatus::Error, Some("boom".to_string()))
        .unwrap();

    let rows = db.list().unwrap();
    assert_eq!(TranscodeStatus::Error, rows[0].status);
    assert_eq!(Some("boom".to_string()), rows[0].error_message);
    assert!(rows[0].updated_on >= rows[0].created_on);
}

#[test]
fn status_codes_round_trip() {
    for status in [
        TranscodeStatus::Pending,
        TranscodeStatus::Success,
        TranscodeStatus::Error,
    ] {
        assert_eq!(Some(status), TranscodeStatus::from_code(status.code()));
    }
    assert_eq!(0, TranscodeStatus::Pending.code());
    assert_eq!(1, TranscodeStatus::Success.code());
    assert_eq!(2, TranscodeStatus::Error.code());
    assert_eq!(None, TranscodeStatus::from_code(3));
    assert_eq!("Pending", TranscodeStatus::Pending.name());
    assert_eq!("Success", TranscodeStatus::Success.name());
    assert_eq!("Error", TranscodeStatus::Error.name());
}
