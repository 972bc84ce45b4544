use cortinizer::text::{decimal_string, seconds_string, split_file_name};

#[test]
fn decimal_forms() {
    for n in [0u32, 7, 10, 40, 99, 100, 10000, 4294967295] {
        assert_eq!(decimal_string(n as u64), format!("{}", n));
    }
}

#[test]
fn file_name_splits() {
    assert_eq!(split_file_name("song.mp3"), ("song".to_string(), Some("mp3".to_string())));
    assert_eq!(split_file_name(".hidden"), (".hidden".to_string(), None));
    assert_eq!(split_file_name("..x"), (".".to_string(), Some("x".to_string())));
    assert_eq!(split_file_name(".."), ("..".to_string(), None));
    assert_eq!(split_file_name("a.b.c"), ("a.b".to_string(), Some("c".to_string())));
    assert_eq!(split_file_name("trailing."), ("trailing".to_string(), Some(String::new())));
    assert_eq!(split_file_name("plain"), ("plain".to_string(), None));
}

#[test]
fn seconds_forms() {
    assert_eq!(seconds_string(40_000_000), "40");
    assert_eq!(seconds_string(12_500_000), "12.5");
    assert_eq!(seconds_string(1), "0.000001");
    assert_eq!(seconds_string(0), "0");
    assert_eq!(seconds_string(215_066_122), "215.066122");
    assert_eq!(seconds_string(u64::MAX), format!("{}.{}", u64::MAX / 1_000_000, "551615"));
}
