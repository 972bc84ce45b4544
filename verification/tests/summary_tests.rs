use cortinizer::error::ProcessResult;
use cortinizer::summary::{exit_code, summarize_results};

#[test]
fn summary_counts() {
    let results = vec![
        ProcessResult::success("/a.mp3".to_string(), "/o/cortina40_a.mp3".to_string()),
        ProcessResult::failed("/b.mp3".to_string(), "Failed: boom".to_string()),
        ProcessResult::success("/c.mp3".to_string(), "/o/cortina40_c.mp3".to_string()),
        ProcessResult::failed("/d.mp3".to_string(), "Failed: bang".to_string()),
    ];
    let s = summarize_results(&results);
    assert_eq!(s.total, 4);
    assert_eq!(s.successes, 2);
    assert_eq!(s.failures, 2);
    assert_eq!(
        s.failed,
        vec![
            ("/b.mp3".to_string(), "Failed: boom".to_string()),
            ("/d.mp3".to_string(), "Failed: bang".to_string())
        ]
    );
    assert_eq!(exit_code(&results), 1);
}

#[test]
fn all_successes_exit_zero() {
    let results = vec![ProcessResult::success("/a.mp3".to_string(), "/o/x.mp3".to_string())];
    assert_eq!(exit_code(&results), 0);
    let s = summarize_results(&results);
    assert_eq!((s.total, s.successes, s.failures), (1, 1, 0));
    assert_eq!(exit_code(&Vec::new()), 0);
}
