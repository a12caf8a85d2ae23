use transcoder::ffprobe::{commandline_error, FfProbe, Format, Stream};

fn video_stream(codec: &str, width: i64, height: i64, rate: &str) -> Stream {
    Stream {
        codec_name: Some(codec.to_string()),
        codec_type: Some("video".to_string()),
        r_frame_rate: rate.to_string(),
        width: Some(width),
        height: Some(height),
        ..Stream::default()
    }
}

#[test]
fn reads_bitrate_defensively() {
    let mut probe = FfProbe::default();
    assert_eq!(0, probe.bitrate());
    probe.format.bit_rate = Some("1000".to_string());
    assert_eq!(1000, probe.bitrate());
    probe.format.bit_rate = Some("fast".to_string());
    assert_eq!(0, probe.bitrate());
}

#[test]
fn finds_the_first_video_stream() {
    let audio = Stream {
        codec_name: Some("aac".to_string()),
        codec_type: Some("audio".to_string()),
        ..Stream::default()
    };
    let probe = FfProbe {
        streams: vec![audio, video_stream("h264", 1920, 1080, "30000/1001")],
        format: Format::default(),
    };
    assert_eq!("h264", probe.video_codec());
    assert_eq!((1920, 1080), probe.resolution());
    assert_eq!((30000, 1001), probe.frame_rate());
}

#[test]
fn degrades_without_video_stream() {
    let probe = FfProbe::default();
    assert_eq!("", probe.video_codec());
    assert_eq!((0, 0), probe.resolution());
    assert_eq!((0, 1), probe.frame_rate());
    assert_eq!(None, probe.duration_millis());
}

#[test]
fn reads_frame_rate_fractions() {
    let probe = FfProbe {
        streams: vec![video_stream("h264", 100, 100, "30/1")],
        format: Format::default(),
    };
    assert_eq!((30, 1), probe.frame_rate());

    let zero_den = FfProbe {
        streams: vec![video_stream("h264", 100, 100, "30/0")],
        format: Format::default(),
    };
    assert_eq!((0, 1), zero_den.frame_rate());

    let malformed = FfProbe {
        streams: vec![video_stream("h264", 100, 100, "thirty")],
        format: Format::default(),
    };
    assert_eq!((0, 1), malformed.frame_rate());
}

#[test]
fn reads_duration_as_millis() {
    let mut probe = FfProbe::default();
    probe.format.duration = Some("130.500000".to_string());
    assert_eq!(Some(130500), probe.duration_millis());
    probe.format.duration = Some("130".to_string());
    assert_eq!(Some(130000), probe.duration_millis());
    probe.format.duration = Some(".5".to_string());
    assert_eq!(Some(500), probe.duration_millis());
    probe.format.duration = Some("1.2345".to_string());
    assert_eq!(Some(1234), probe.duration_millis());
    probe.format.duration = Some("oops".to_string());
    assert_eq!(None, probe.duration_millis());
}

#[test]
fn formats_command_failures() {
    let message = commandline_error("ffprobe", 1, "partial", "bad input");
    assert_eq!(
        "command ffprobe failed with exit code 1, stdout:\n'partial'\nstderr:\n'bad input'",
        message,
    );
    let negative = commandline_error("ffmpeg", -9, "", "killed");
    assert!(negative.contains("exit code -9"));
}
