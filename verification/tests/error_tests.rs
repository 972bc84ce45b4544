use cortinizer::error::{CortinizerError, ProcessResult, ProcessStatus};

#[test]
fn test_process_result_success() {
    let input = String::from("/input/test.mp3");
    let output = String::from("/output/cortina40_test.mp3");
    let result = ProcessResult::success(input.clone(), output.clone());

    assert!(result.is_success());
    assert_eq!(result.input_path, input);
    assert_eq!(result.output_path, Some(output));
}

#[test]
fn test_process_result_failed() {
    let input = String::from("/input/test.mp3");
    let error = "FFmpeg failed".to_string();
    let result = ProcessResult::failed(input.clone(), error.clone());

    assert!(!result.is_success());
    assert_eq!(result.input_path, input);
    assert!(result.output_path.is_none());
    assert_eq!(result.status, ProcessStatus::Failed(error));
}

#[test]
fn error_display_texts() {
    let cases = vec![
        (CortinizerError::IoError("disk full".to_string()), "I/O error: disk full"),
        (CortinizerError::FfmpegError("boom".to_string()), "FFmpeg error: boom"),
        (
            CortinizerError::UnsupportedFormat("Could not determine file name".to_string()),
            "Unsupported audio format: Could not determine file name",
        ),
        (
            CortinizerError::InvalidAudioFile { path: "/a/b.mp3".to_string() },
            "Invalid audio file: /a/b.mp3",
        ),
        (
            CortinizerError::DurationError { path: "/a/b.mp3".to_string() },
            "Failed to get audio duration for: /a/b.mp3",
        ),
        (CortinizerError::MetadataError("bad tag".to_string()), "Failed to copy metadata: bad tag"),
        (CortinizerError::ConfigError("nope".to_string()), "Configuration error: nope"),
    ];
    for (error, text) in cases {
        assert_eq!(error.to_display_string(), text);
    }
}
