use cortinizer::cli::Args;

#[test]
fn test_args_validation() {
    // This would need proper testing with mock CLI args
    // For now, we just ensure the struct compiles
    let args = Args {
        length: 40,
        paths: vec![String::from("test.mp3")],
        jobs: 4,
        verbose: false,
    };
    assert_eq!(args.length, 40);
    assert_eq!(args.paths.len(), 1);
}

#[test]
fn valid_args_have_no_error() {
    let args = Args { length: 40, paths: vec!["a.mp3".to_string()], jobs: 1, verbose: true };
    assert_eq!(args.validation_error(), None);
}

#[test]
fn zero_length_is_refused_first() {
    let args = Args { length: 0, paths: vec![], jobs: 1, verbose: false };
    assert_eq!(args.validation_error(), Some("Error: Length must be greater than 0".to_string()));
}

#[test]
fn empty_paths_are_refused() {
    let args = Args { length: 40, paths: vec![], jobs: 1, verbose: false };
    assert_eq!(
        args.validation_error(),
        Some("Error: At least one input path is required".to_string())
    );
}
