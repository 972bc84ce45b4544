use cortinizer::error::CortinizerError;
use cortinizer::file_handler::{
    categorize_inputs, cortina_file_name_of, get_output_extension, get_output_path_for_file,
    get_output_path_for_folder, get_output_path_under_base, is_audio_file, select_audio_files,
    InputItem, InputWarning, PathKind,
};
use cortinizer::paths::{extension, file_stem};

#[test]
fn test_is_audio_file_mp3() {
    let path = "/test/song.mp3";
    assert!(is_audio_file(path));
}

#[test]
fn test_is_audio_file_flac() {
    let path = "/test/song.flac";
    assert!(is_audio_file(path));
}

#[test]
fn test_is_audio_file_case_insensitive() {
    let path = "/test/song.MP3";
    assert!(is_audio_file(path));
}

#[test]
fn test_is_audio_file_unsupported() {
    let path = "/test/song.wav";
    assert!(!is_audio_file(path));
}

#[test]
fn test_get_output_extension_mp3() {
    let path = "/test/song.mp3";
    assert_eq!(get_output_extension(path).unwrap(), "mp3");
}

#[test]
fn test_get_output_extension_flac() {
    let path = "/test/song.flac";
    assert_eq!(get_output_extension(path).unwrap(), "flac");
}

#[test]
fn audio_files_need_an_extension() {
    assert!(!is_audio_file("/test/mp3"));
    assert!(!is_audio_file("/test/.mp3"));
    assert!(is_audio_file("/test/Song.FlAc"));
    assert!(is_audio_file("relative/a.b.mp3"));
    assert!(!is_audio_file("/test/song.mp3.bak"));
    assert!(!is_audio_file("/"));
}

#[test]
fn output_extension_is_lowercased() {
    assert_eq!(get_output_extension("/x/Track.FLAC").unwrap(), "flac");
    assert_eq!(get_output_extension("/x/Track.Mp3").unwrap(), "mp3");
}

#[test]
fn output_extension_missing() {
    match get_output_extension("/x/Track") {
        Err(CortinizerError::UnsupportedFormat(m)) => assert_eq!(m, "Could not determine file extension"),
        _ => panic!("no extension must be an unsupported format"),
    }
}

#[test]
fn stem_and_extension_agree_with_std_path() {
    let samples = [
        "/test/song.mp3", "song", ".hidden", "..x", "a.b.c", "dir/", "dir/.", "/", "", "..",
        ".", "a/..", "trailing.", "/music/Tangos/D'Arienzo/song1.mp3", "x/.y.z", "ñandú.FLAC",
    ];
    for s in samples {
        let p = std::path::Path::new(s);
        let std_stem = p.file_stem().map(|x| x.to_str().unwrap().to_string());
        let std_ext = p.extension().map(|x| x.to_str().unwrap().to_string());
        assert_eq!(file_stem(s), std_stem, "stem of {:?}", s);
        assert_eq!(extension(s), std_ext, "extension of {:?}", s);
    }
}

#[test]
fn cortina_name_format() {
    assert_eq!(cortina_file_name_of(40, "song", "mp3"), "cortina40_song.mp3");
    assert_eq!(cortina_file_name_of(0, "a.b", "flac"), "cortina0_a.b.flac");
    assert_eq!(cortina_file_name_of(4294967295, "x", "mp3"), "cortina4294967295_x.mp3");
}

#[test]
fn output_path_for_single_file() {
    let p = get_output_path_for_file("/music/song.mp3", "/opt/cortinizer", 40).unwrap();
    assert_eq!(p, "/opt/cortinizer/cortina40_song.mp3");
    let p = get_output_path_for_file("C/Music/Valse.FLAC", "/opt/cortinizer", 30).unwrap();
    assert_eq!(p, "/opt/cortinizer/cortina30_Valse.flac");
}

#[test]
fn output_path_for_file_errors() {
    match get_output_path_for_file("/", "/opt", 40) {
        Err(CortinizerError::UnsupportedFormat(m)) => assert_eq!(m, "Could not determine file name"),
        _ => panic!("a path without a file name must fail"),
    }
    match get_output_path_for_file("/music/song", "/opt", 40) {
        Err(CortinizerError::UnsupportedFormat(m)) => assert_eq!(m, "Could not determine file extension"),
        _ => panic!("a path without an extension must fail"),
    }
}

#[test]
fn output_path_for_folder_preserves_structure() {
    let p = get_output_path_for_folder(
        "/music/Tangos",
        "/opt/cortinizer",
        "/music/Tangos/D'Arienzo/song1.mp3",
        40,
    )
    .unwrap();
    assert_eq!(p, "/opt/cortinizer/Tangos/D'Arienzo/cortina40_song1.mp3");
    let p = get_output_path_for_folder(
        "/music/Tangos",
        "/opt/cortinizer",
        "/music/Tangos/Troilo/Sub/song2.flac",
        40,
    )
    .unwrap();
    assert_eq!(p, "/opt/cortinizer/Tangos/Troilo/Sub/cortina40_song2.flac");
    let p = get_output_path_for_folder("/music/Tangos", "/opt/cortinizer", "/music/Tangos/top.MP3", 40)
        .unwrap();
    assert_eq!(p, "/opt/cortinizer/Tangos/cortina40_top.mp3");
}

#[test]
fn output_path_for_folder_errors() {
    match get_output_path_for_folder("/", "/opt", "/a.mp3", 40) {
        Err(CortinizerError::UnsupportedFormat(m)) => assert_eq!(m, "Could not determine folder name"),
        _ => panic!("a folder without a name must fail"),
    }
    match get_output_path_for_folder("/music/Tangos", "/opt", "/elsewhere/a.mp3", 40) {
        Err(CortinizerError::IoError(m)) => assert_eq!(m, "Could not calculate relative path"),
        _ => panic!("a file outside the folder must fail"),
    }
    match get_output_path_for_folder("/music/Tangos", "/opt", "/music/Tangos/a", 40) {
        Err(CortinizerError::UnsupportedFormat(m)) => assert_eq!(m, "Could not determine file extension"),
        _ => panic!("a file without an extension must fail"),
    }
}

#[test]
fn output_path_under_other_base() {
    let p = get_output_path_under_base("/opt/Tangos_1", "/music/Tangos", "/music/Tangos/D/s.mp3", 50)
        .unwrap();
    assert_eq!(p, "/opt/Tangos_1/D/cortina50_s.mp3");
}

#[test]
fn input_item_accessors() {
    let f = InputItem::AudioFile("/a/b.mp3".to_string());
    let d = InputItem::Folder("/a".to_string());
    assert_eq!(f.path(), "/a/b.mp3");
    assert_eq!(d.path(), "/a");
    assert!(!f.is_folder());
    assert!(d.is_folder());
}

#[test]
fn categorize_probed_inputs() {
    let probed = vec![
        ("/m/a.mp3".to_string(), PathKind::File),
        ("/m/b.wav".to_string(), PathKind::File),
        ("/m/gone.mp3".to_string(), PathKind::Missing),
        ("/m/dir".to_string(), PathKind::Directory),
        ("/dev/null".to_string(), PathKind::Other),
        ("/m/c.FLAC".to_string(), PathKind::File),
    ];
    let (items, warnings) = categorize_inputs(&probed);
    let paths: Vec<(bool, String)> = items.iter().map(|i| (i.is_folder(), i.path().clone())).collect();
    assert_eq!(
        paths,
        vec![
            (false, "/m/a.mp3".to_string()),
            (true, "/m/dir".to_string()),
            (false, "/m/c.FLAC".to_string()),
        ]
    );
    assert_eq!(warnings.len(), 2);
    assert!(matches!(&warnings[0], InputWarning::NotSupportedAudio(p) if p == "/m/b.wav"));
    assert!(matches!(&warnings[1], InputWarning::PathDoesNotExist(p) if p == "/m/gone.mp3"));
}

#[test]
fn select_walked_audio_files() {
    let entries = vec![
        ("/m".to_string(), false),
        ("/m/a.mp3".to_string(), true),
        ("/m/b.txt".to_string(), true),
        ("/m/sub.mp3".to_string(), false),
        ("/m/sub.mp3/c.flac".to_string(), true),
    ];
    assert_eq!(
        select_audio_files(&entries),
        vec!["/m/a.mp3".to_string(), "/m/sub.mp3/c.flac".to_string()]
    );
}

#[test]
fn output_keeps_the_lowercased_format() {
    for (input, ext) in [("/m/a.MP3", "mp3"), ("/m/b.Flac", "flac"), ("/m/c.d.mp3", "mp3")] {
        let out = get_output_path_for_file(input, "/o", 40).unwrap();
        assert_eq!(extension(&out), Some(ext.to_string()));
    }
}

#[test]
fn split_off_extensions_hold_no_dot() {
    for name in ["a.b.c", "..x", "x.", "song.mp3"] {
        if let Some(ext) = extension(name) {
            assert!(!ext.contains('.'));
        }
    }
}
