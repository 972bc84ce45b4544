use cortinizer::config::Config;
use cortinizer::error::CortinizerError;

fn config(length: u32) -> Config {
    Config::new(length, "/opt/cortinizer".to_string(), "/usr/bin/ffmpeg".to_string()).unwrap()
}

#[test]
fn test_calculate_fade_start_normal() {
    let config = config(40);
    assert_eq!(config.calculate_fade_start() as f64, 35.0);
}

#[test]
fn test_calculate_fade_start_short() {
    let config = config(3);
    assert_eq!(config.calculate_fade_start() as f64, 0.0);
}

#[test]
fn test_calculate_fade_start_exactly_five() {
    let config = config(5);
    assert_eq!(config.calculate_fade_start() as f64, 0.0);
}

#[test]
fn test_fade_duration() {
    let config = config(40);
    assert_eq!(config.fade_duration() as f64, 5.0);
}

#[test]
fn test_fade_duration_short() {
    let config = config(3);
    assert_eq!(config.fade_duration() as f64, 3.0);
}

#[test]
fn test_zero_length_rejected() {
    let result = Config::new(0, String::new(), String::new());
    assert!(result.is_err());
}

#[test]
fn zero_length_error_message() {
    match Config::new(0, String::new(), String::new()) {
        Err(CortinizerError::ConfigError(m)) => assert_eq!(m, "Cortina length must be greater than 0"),
        _ => panic!("zero length must be a configuration error"),
    }
}

#[test]
fn new_keeps_its_arguments() {
    let c = Config::new(30, "/p".to_string(), "/p/ffmpeg".to_string()).unwrap();
    assert_eq!(c.cortina_length, 30);
    assert_eq!(c.program_dir, "/p");
    assert_eq!(c.ffmpeg_path, "/p/ffmpeg");
}

#[test]
fn fade_ends_with_cortina() {
    for length in [1u32, 2, 4, 5, 6, 30, 40, 50, 60, 1000] {
        let c = config(length);
        assert_eq!(c.calculate_fade_start() + c.fade_duration(), length);
        assert!(c.fade_duration() <= 5);
    }
}

#[test]
fn bundled_ffmpeg_beside_program() {
    assert_eq!(Config::bundled_ffmpeg_path("/opt/cortinizer"), "/opt/cortinizer/ffmpeg.exe");
}

#[test]
fn ffmpeg_from_search_found() {
    let r = Config::ffmpeg_from_search(Ok("/usr/bin/ffmpeg".to_string())).unwrap();
    assert_eq!(r, "/usr/bin/ffmpeg");
}

#[test]
fn ffmpeg_from_search_missing() {
    match Config::ffmpeg_from_search(Err("cannot find binary path".to_string())) {
        Err(CortinizerError::ConfigError(m)) => assert_eq!(
            m,
            "Could not find FFmpeg. cannot find binary path\nOn Windows, place ffmpeg.exe beside cortinizer.exe.\nOn Linux/macOS, install ffmpeg through your package manager."
        ),
        _ => panic!("a failed search must be a configuration error"),
    }
}

#[test]
fn find_ffmpeg_prefers_bundled_on_windows() {
    let r = Config::find_ffmpeg(
        "/opt/c",
        true,
        |p: &String| p == "/opt/c/ffmpeg.exe",
        || Ok("/usr/bin/ffmpeg".to_string()),
    );
    assert_eq!(r.unwrap(), "/opt/c/ffmpeg.exe");
}

#[test]
fn find_ffmpeg_searches_path_otherwise() {
    let r = Config::find_ffmpeg("/opt/c", false, |_p: &String| true, || Ok("/usr/bin/ffmpeg".to_string()));
    assert_eq!(r.unwrap(), "/usr/bin/ffmpeg");
    let r = Config::find_ffmpeg("/opt/c", true, |_p: &String| false, || Ok("/usr/bin/ffmpeg".to_string()));
    assert_eq!(r.unwrap(), "/usr/bin/ffmpeg");
    match Config::find_ffmpeg("/opt/c", false, |_p: &String| false, || Err("not found".to_string())) {
        Err(CortinizerError::ConfigError(m)) => assert!(m.starts_with("Could not find FFmpeg. not found\n")),
        _ => panic!("a failed search must be a configuration error"),
    }
}
