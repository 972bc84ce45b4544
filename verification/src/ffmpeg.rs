//! The FFmpeg and FFprobe invocations that cut a cortina.
//!
//! Running the tools and reading the track's duration (a floating-point number,
//! handed over in whole microseconds) happen in the caller; the library decides
//! the trim and the fade-out, builds the filter, picks the codec and lays out
//! the command lines.

use vstd::prelude::*;
use crate::config::{Config, fade_length, fade_start};
use crate::error::CortinizerError;
use crate::paths::{extension, extension_spec, lowercase_of, opt_view, text_lowercase};
use crate::text::{decimal, lemma_seconds_text_whole, seconds_string, seconds_text};

verus! {

/// The audio codec for an output extension (already lowercased).
pub open spec fn codec_for(lower_ext: Seq<char>) -> Option<Seq<char>> {
    if lower_ext == "mp3"@ {
        Some("libmp3lame"@)
    } else if lower_ext == "flac"@ {
        Some("flac"@)
    } else {
        None
    }
}

/// The extension that decides the codec of an output: its own, lowercased,
/// or `mp3` where it has none.
pub open spec fn codec_extension(output_path: Seq<char>) -> Seq<char> {
    match extension_spec(output_path) {
        Some(ext) => text_lowercase(ext),
        None => text_lowercase("mp3"@),
    }
}

/// Determine the audio codec from the output file's extension: `libmp3lame`
/// for MP3, `flac` for FLAC, none (FFmpeg's choice) otherwise.
pub fn output_codec(output_path: &str) -> (codec: Option<String>)
    ensures
        opt_view(codec) == codec_for(codec_extension(output_path@)),
{
    let ext = match extension(output_path) {
        Some(e) => e,
        None => String::from_str("mp3"),
    };
    let lower = lowercase_of(ext.as_str());
    if lower == String::from_str("mp3") {
        Some(String::from_str("libmp3lame"))
    } else if lower == String::from_str("flac") {
        Some(String::from_str("flac"))
    } else {
        None
    }
}

/// Microseconds in a second.
pub const MICROS_PER_SECOND: u64 = 1000000;

/// Length of the fade-out, in microseconds.
pub const FADE_MICROS: u64 = 5000000;

/// How much of the track a cortina keeps, in microseconds: the cortina length,
/// or the whole track where it is shorter.
pub open spec fn trim_micros(cortina_length: u32, duration: nat) -> nat {
    let length = cortina_length as nat * MICROS_PER_SECOND as nat;
    if duration < length {
        duration
    } else {
        length
    }
}

/// Whether the cortina fades out: always where the track is at least as long
/// as the cortina (a cortina of five seconds or less fades over its whole
/// length); for a track shorter than the cortina, only where the track lasts
/// at least five seconds.
pub open spec fn fade_wanted(cortina_length: u32, duration: nat) -> bool {
    duration >= cortina_length as nat * MICROS_PER_SECOND as nat || duration >= FADE_MICROS as nat
}

/// The length of the fade-out over `trim` microseconds of audio: five seconds,
/// or all of it where it is shorter.
pub open spec fn fade_length_micros(trim: nat) -> nat {
    if trim < FADE_MICROS as nat {
        trim
    } else {
        FADE_MICROS as nat
    }
}

/// Where the fade-out starts: so that it ends with the audio.
pub open spec fn fade_start_micros(trim: nat) -> nat {
    (trim - fade_length_micros(trim)) as nat
}

/// The FFmpeg filter of a cortina of `cortina_length` seconds cut from a track
/// of `duration` microseconds: trim, then, where wanted, a fade-out over the
/// last five seconds (or all) of the trimmed audio.
pub open spec fn cortina_filter(cortina_length: u32, duration: nat) -> Seq<char> {
    let trim = trim_micros(cortina_length, duration);
    if fade_wanted(cortina_length, duration) {
        "atrim=0:"@ + seconds_text(trim) + ",afade=t=out:st="@ + seconds_text(
            fade_start_micros(trim),
        ) + ":d="@ + seconds_text(fade_length_micros(trim))
    } else {
        "atrim=0:"@ + seconds_text(trim)
    }
}

/// From a track at least as long as the cortina, the filter cuts the cortina at
/// its full length and fades it out over its last five seconds, or over all of
/// it where it lasts five seconds or less.
pub open spec fn full_track_filter(cortina_length: u32, duration: nat, filter: Seq<char>) -> bool {
    duration >= cortina_length as nat * 1000000 ==> filter == "atrim=0:"@ + decimal(
        cortina_length as nat,
    ) + ",afade=t=out:st="@ + decimal(
        if cortina_length > 5 {
            (cortina_length - 5) as nat
        } else {
            0
        },
    ) + ":d="@ + decimal(
        if cortina_length < 5 {
            cortina_length as nat
        } else {
            5
        },
    )
}

/// From a track shorter than the cortina, the filter keeps the whole track and,
/// where it lasts at least five seconds, fades it out over its last five
/// seconds; a shorter track is kept without a fade.
pub open spec fn short_track_filter(cortina_length: u32, duration: nat, filter: Seq<char>) -> bool {
    duration < cortina_length as nat * 1000000 ==> filter == if duration >= 5000000 {
        "atrim=0:"@ + seconds_text(duration) + ",afade=t=out:st="@ + seconds_text(
            (duration - 5000000) as nat,
        ) + ":d="@ + decimal(5)
    } else {
        "atrim=0:"@ + seconds_text(duration)
    }
}

/// The filter of a cortina cut from a track at least as long as it: trimmed to
/// the cortina length, faded over the last five seconds (or all of a cortina
/// of five seconds or less).
pub proof fn lemma_filter_of_full_track(cortina_length: u32, duration: nat)
    ensures
        full_track_filter(cortina_length, duration, cortina_filter(cortina_length, duration)),
{
    if duration >= cortina_length as nat * 1000000 {
        let l = cortina_length as nat;
        lemma_seconds_text_whole(l);
        if cortina_length > 5 {
            lemma_seconds_text_whole((l - 5) as nat);
            lemma_seconds_text_whole(5);
            assert(((l - 5) as nat) * 1000000 == l * 1000000 - 5000000);
        } else {
            lemma_seconds_text_whole(0);
            assert(l * 1000000 <= 5000000);
        }
    }
}

/// The filter of a cortina cut from a track shorter than it: the whole track,
/// faded over its last five seconds where it lasts at least that long.
pub proof fn lemma_filter_of_short_track(cortina_length: u32, duration: nat)
    ensures
        short_track_filter(cortina_length, duration, cortina_filter(cortina_length, duration)),
{
    lemma_seconds_text_whole(5);
}

/// Build the FFmpeg filter of a cortina cut from a track that lasts
/// `duration_micros` microseconds.
pub fn build_filter_complex(config: &Config, duration_micros: u64) -> (filter: String)
    ensures
        filter@ == cortina_filter(config.cortina_length, duration_micros as nat),
        full_track_filter(config.cortina_length, duration_micros as nat, filter@),
        short_track_filter(config.cortina_length, duration_micros as nat, filter@),
{
    proof {
        lemma_filter_of_full_track(config.cortina_length, duration_micros as nat);
        lemma_filter_of_short_track(config.cortina_length, duration_micros as nat);
    }
    let length = config.cortina_length as u64 * MICROS_PER_SECOND;
    let trim = if duration_micros < length {
        duration_micros
    } else {
        length
    };
    let with_fade = duration_micros >= length || duration_micros >= FADE_MICROS;
    let mut filter = String::from_str("atrim=0:");
    let trim_text = seconds_string(trim);
    filter.append(trim_text.as_str());
    if with_fade {
        let fade_length = if trim < FADE_MICROS {
            trim
        } else {
            FADE_MICROS
        };
        let start = seconds_string(trim - fade_length);
        let length_text = seconds_string(fade_length);
        filter.append(",afade=t=out:st=");
        filter.append(start.as_str());
        filter.append(":d=");
        filter.append(length_text.as_str());
    }
    filter
}

/// The fade-out ends exactly where the trimmed audio ends, and lasts at most
/// five seconds.
pub proof fn lemma_fade_ends_with_audio(cortina_length: u32, duration: nat)
    ensures
        fade_start_micros(trim_micros(cortina_length, duration)) + fade_length_micros(
            trim_micros(cortina_length, duration),
        ) == trim_micros(cortina_length, duration),
        fade_length_micros(trim_micros(cortina_length, duration)) <= FADE_MICROS,
{
}

/// From a track at least as long as the cortina, the cortina is cut at its
/// full length and fades exactly as the configuration says.
pub proof fn lemma_full_track_fades_as_configured(cortina_length: u32, duration: nat)
    requires
        duration >= cortina_length as nat * MICROS_PER_SECOND as nat,
    ensures
        fade_wanted(cortina_length, duration),
        trim_micros(cortina_length, duration) == cortina_length as nat * MICROS_PER_SECOND as nat,
        fade_start_micros(trim_micros(cortina_length, duration)) == fade_start(cortina_length as nat)
            * MICROS_PER_SECOND as nat,
        fade_length_micros(trim_micros(cortina_length, duration)) == fade_length(
            cortina_length as nat,
        ) * MICROS_PER_SECOND as nat,
{
}

/// The views of a list of strings.
pub open spec fn views(v: Seq<String>) -> Seq<Seq<char>> {
    v.map_values(|s: String| s@)
}

/// The arguments of the FFmpeg run that writes a cortina.
pub open spec fn ffmpeg_arguments(
    input: Seq<char>,
    filter: Seq<char>,
    codec: Option<Seq<char>>,
    output: Seq<char>,
) -> Seq<Seq<char>> {
    let head = seq!["-i"@, input, "-filter_complex"@, filter];
    let with_codec = match codec {
        Some(c) => head + seq!["-c:a"@, c],
        None => head,
    };
    with_codec + seq!["-y"@, output]
}

/// The arguments of the FFmpeg run: input, filter, codec where there is one,
/// and the output, which is overwritten.
pub fn ffmpeg_args(input_path: &str, filter: &str, codec: &Option<String>, output_path: &str) -> (args: Vec<String>)
    ensures
        views(args@) == ffmpeg_arguments(input_path@, filter@, opt_view(*codec), output_path@),
{
    let mut args: Vec<String> = Vec::new();
    args.push(String::from_str("-i"));
    args.push(String::from_str(input_path));
    args.push(String::from_str("-filter_complex"));
    args.push(String::from_str(filter));
    match codec {
        Some(c) => {
            args.push(String::from_str("-c:a"));
            args.push(c.clone());
        },
        None => {},
    }
    args.push(String::from_str("-y"));
    args.push(String::from_str(output_path));
    proof {
        assert(views(args@) =~= ffmpeg_arguments(input_path@, filter@, opt_view(*codec), output_path@));
    }
    args
}

/// The arguments of the FFprobe run that reads a track's duration.
pub open spec fn ffprobe_arguments(audio: Seq<char>) -> Seq<Seq<char>> {
    seq![
        "-i"@,
        audio,
        "-show_entries"@,
        "format=duration"@,
        "-v"@,
        "error"@,
        "-of"@,
        "default=noprint_wrappers=1:nokey=1"@,
    ]
}

/// The arguments of the FFprobe run that prints the duration of `audio_path`.
pub fn ffprobe_args(audio_path: &str) -> (args: Vec<String>)
    ensures
        views(args@) == ffprobe_arguments(audio_path@),
{
    let mut args: Vec<String> = Vec::new();
    args.push(String::from_str("-i"));
    args.push(String::from_str(audio_path));
    args.push(String::from_str("-show_entries"));
    args.push(String::from_str("format=duration"));
    args.push(String::from_str("-v"));
    args.push(String::from_str("error"));
    args.push(String::from_str("-of"));
    args.push(String::from_str("default=noprint_wrappers=1:nokey=1"));
    proof {
        assert(views(args@) =~= ffprobe_arguments(audio_path@));
    }
    args
}

/// The file name of the FFprobe executable, which sits beside FFmpeg.
pub fn ffprobe_file_name(on_windows: bool) -> (name: String)
    ensures
        name@ == if on_windows { "ffprobe.exe"@ } else { "ffprobe"@ },
{
    if on_windows {
        String::from_str("ffprobe.exe")
    } else {
        String::from_str("ffprobe")
    }
}

/// The error of a tool that could not be started.
pub fn launch_error(tool: &str, reason: &str) -> (e: CortinizerError)
    ensures
        e matches CortinizerError::FfmpegError(m) && m@ == "Failed to execute "@ + tool@ + ": "@
            + reason@,
{
    let mut m = String::from_str("Failed to execute ");
    m.append(tool);
    m.append(": ");
    m.append(reason);
    CortinizerError::FfmpegError(m)
}

/// The error of an FFmpeg run that failed, with what it printed on stderr.
pub fn ffmpeg_failure(stderr: &str) -> (e: CortinizerError)
    ensures
        e matches CortinizerError::FfmpegError(m) && m@ == "FFmpeg failed: "@ + stderr@,
{
    let mut m = String::from_str("FFmpeg failed: ");
    m.append(stderr);
    CortinizerError::FfmpegError(m)
}

} // verus!
