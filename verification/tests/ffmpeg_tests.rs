use cortinizer::config::Config;
use cortinizer::error::CortinizerError;
use cortinizer::ffmpeg::{
    build_filter_complex, ffmpeg_args, ffmpeg_failure, ffprobe_args, ffprobe_file_name, launch_error,
    output_codec,
};

#[test]
fn test_filter_complex_normal() {
    // Test the filter complex construction logic
    let trim_duration = 40.0;
    let fade_start = 35.0;
    let fade_duration = 5.0;

    let filter = format!(
        "atrim=0:{},afade=t=out:st={}:d={}",
        trim_duration, fade_start, fade_duration
    );

    assert_eq!(filter, "atrim=0:40,afade=t=out:st=35:d=5");
}

#[test]
fn test_filter_complex_short() {
    // Test filter for short tracks (< 5 seconds)
    let trim_duration = 3.0;
    let filter = format!("atrim=0:{}", trim_duration);

    assert_eq!(filter, "atrim=0:3");
}

fn config(length: u32) -> Config {
    Config::new(length, "/p".to_string(), "/usr/bin/ffmpeg".to_string()).unwrap()
}

fn micros(seconds: f64) -> u64 {
    (seconds * 1_000_000.0).round() as u64
}

#[test]
fn filter_for_a_full_length_track() {
    let filter = build_filter_complex(&config(40), micros(215.066122));
    assert_eq!(filter, "atrim=0:40,afade=t=out:st=35:d=5");
    let filter = build_filter_complex(&config(40), micros(40.0));
    assert_eq!(filter, "atrim=0:40,afade=t=out:st=35:d=5");
}

#[test]
fn filter_for_a_short_track_fades_at_its_end() {
    let filter = build_filter_complex(&config(40), micros(20.0));
    assert_eq!(filter, "atrim=0:20,afade=t=out:st=15:d=5");
    let filter = build_filter_complex(&config(30), micros(12.5));
    assert_eq!(filter, "atrim=0:12.5,afade=t=out:st=7.5:d=5");
    let filter = build_filter_complex(&config(40), micros(5.0));
    assert_eq!(filter, "atrim=0:5,afade=t=out:st=0:d=5");
}

#[test]
fn filter_for_a_track_under_five_seconds_has_no_fade() {
    let filter = build_filter_complex(&config(40), micros(3.0));
    assert_eq!(filter, "atrim=0:3");
    let filter = build_filter_complex(&config(40), micros(4.999));
    assert_eq!(filter, "atrim=0:4.999");
}

#[test]
fn filter_for_a_cortina_of_five_seconds_or_less() {
    let filter = build_filter_complex(&config(3), micros(180.0));
    assert_eq!(filter, "atrim=0:3,afade=t=out:st=0:d=3");
    let filter = build_filter_complex(&config(5), micros(180.0));
    assert_eq!(filter, "atrim=0:5,afade=t=out:st=0:d=5");
    let filter = build_filter_complex(&config(3), micros(4.0));
    assert_eq!(filter, "atrim=0:3,afade=t=out:st=0:d=3");
}

#[test]
fn trim_text_matches_float_formatting() {
    for seconds in [20.0f64, 12.5, 3.25, 0.000001, 215.066122, 7.1, 59.999999] {
        let filter = build_filter_complex(&config(1000), micros(seconds));
        let head = format!("atrim=0:{}", seconds);
        assert!(filter.starts_with(&head), "{} -> {}", seconds, filter);
        let rest = &filter[head.len()..];
        assert!(rest.is_empty() || rest.starts_with(','), "{} -> {}", seconds, filter);
    }
}

#[test]
fn codec_follows_output_extension() {
    assert_eq!(output_codec("/o/cortina40_a.mp3"), Some("libmp3lame".to_string()));
    assert_eq!(output_codec("/o/cortina40_a.MP3"), Some("libmp3lame".to_string()));
    assert_eq!(output_codec("/o/cortina40_a.flac"), Some("flac".to_string()));
    assert_eq!(output_codec("/o/cortina40_a"), Some("libmp3lame".to_string()));
    assert_eq!(output_codec("/o/cortina40_a.ogg"), None);
}

#[test]
fn ffmpeg_command_line() {
    let args = ffmpeg_args("/in/a.mp3", "atrim=0:40", &Some("libmp3lame".to_string()), "/o/c.mp3");
    assert_eq!(
        args,
        vec!["-i", "/in/a.mp3", "-filter_complex", "atrim=0:40", "-c:a", "libmp3lame", "-y", "/o/c.mp3"]
    );
    let args = ffmpeg_args("/in/a.ogg", "atrim=0:3", &None, "/o/c.ogg");
    assert_eq!(args, vec!["-i", "/in/a.ogg", "-filter_complex", "atrim=0:3", "-y", "/o/c.ogg"]);
}

#[test]
fn ffprobe_command_line() {
    assert_eq!(
        ffprobe_args("/in/a.flac"),
        vec![
            "-i",
            "/in/a.flac",
            "-show_entries",
            "format=duration",
            "-v",
            "error",
            "-of",
            "default=noprint_wrappers=1:nokey=1"
        ]
    );
    assert_eq!(ffprobe_file_name(true), "ffprobe.exe");
    assert_eq!(ffprobe_file_name(false), "ffprobe");
}

#[test]
fn tool_errors() {
    match launch_error("ffprobe", "No such file or directory (os error 2)") {
        CortinizerError::FfmpegError(m) => {
            assert_eq!(m, "Failed to execute ffprobe: No such file or directory (os error 2)")
        },
        _ => panic!("launch failures are FFmpeg errors"),
    }
    let e = ffmpeg_failure("Invalid data found");
    assert_eq!(e.to_display_string(), "FFmpeg error: FFmpeg failed: Invalid data found");
}
