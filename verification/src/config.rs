//! Configuration of a run: cortina length, program directory, FFmpeg location,
//! and the fade-out that follows from the length.

use vstd::prelude::*;
use crate::error::CortinizerError;
use crate::paths::{join_paths, path_join};
use crate::output_manager::saw;
use crate::file_handler::gives_text;

verus! {

/// Length, in seconds, of the fade-out at the end of a cortina.
pub const FADE_SECONDS: u32 = 5;

/// Configuration for the cortinizer application
#[derive(Debug, Clone)]
pub struct Config {
    /// Length of the cortina in seconds
    pub cortina_length: u32,
    /// Directory containing the cortinizer executable
    pub program_dir: String,
    /// Path to FFmpeg executable
    pub ffmpeg_path: String,
}

/// The second at which the fade-out starts: five seconds before the end of
/// the cortina, or at once where the cortina is no longer than that.
pub open spec fn fade_start(cortina_length: nat) -> nat {
    if cortina_length > FADE_SECONDS {
        (cortina_length - FADE_SECONDS) as nat
    } else {
        0
    }
}

/// The length of the fade-out: five seconds, or the whole cortina where it is
/// shorter.
pub open spec fn fade_length(cortina_length: nat) -> nat {
    if cortina_length < FADE_SECONDS {
        cortina_length
    } else {
        FADE_SECONDS as nat
    }
}

/// What the choice of FFmpeg gives for the result `found` of the `PATH`
/// search: the path found, or the configuration error that names the failure.
pub open spec fn search_outcome(found: Result<String, String>, res: Result<String, CortinizerError>) -> bool {
    match found {
        Ok(p) => res == Ok::<String, CortinizerError>(p),
        Err(m) => res matches Err(e) && e matches CortinizerError::ConfigError(t) && t@
            == "Could not find FFmpeg. "@ + m@
            + "\nOn Windows, place ffmpeg.exe beside cortinizer.exe.\nOn Linux/macOS, install ffmpeg through your package manager."@,
    }
}

impl Config {
    /// Check a cortina length: zero is refused.
    pub fn validate_length(cortina_length: u32) -> (res: Result<(), CortinizerError>)
        ensures
            cortina_length == 0 <==> res is Err,
            res matches Err(e) ==> e matches CortinizerError::ConfigError(m) && m@
                == "Cortina length must be greater than 0"@,
    {
        if cortina_length == 0 {
            Err(
                CortinizerError::ConfigError(
                    String::from_str("Cortina length must be greater than 0"),
                ),
            )
        } else {
            Ok(())
        }
    }

    /// Create a new configuration with the specified cortina length, program
    /// directory and FFmpeg path; a length of zero is refused.
    pub fn new(cortina_length: u32, program_dir: String, ffmpeg_path: String) -> (res: Result<
        Config,
        CortinizerError,
    >)
        ensures
            cortina_length == 0 <==> res is Err,
            res matches Err(e) ==> e matches CortinizerError::ConfigError(m) && m@
                == "Cortina length must be greater than 0"@,
            res matches Ok(c) ==> c.cortina_length == cortina_length && c.program_dir
                == program_dir && c.ffmpeg_path == ffmpeg_path,
    {
        match Self::validate_length(cortina_length) {
            Err(e) => Err(e),
            Ok(()) => Ok(Config { cortina_length, program_dir, ffmpeg_path }),
        }
    }

    /// The path of an FFmpeg executable placed beside the program.
    pub fn bundled_ffmpeg_path(program_dir: &str) -> (path: String)
        ensures
            path@ == path_join(program_dir@, "ffmpeg.exe"@),
    {
        join_paths(program_dir, "ffmpeg.exe")
    }

    /// Choose the FFmpeg executable from the search of the `PATH`: the path
    /// found, or, where the search failed with the message `search_error`, a
    /// configuration error that says where FFmpeg should be put.
    pub fn ffmpeg_from_search(search: Result<String, String>) -> (res: Result<
        String,
        CortinizerError,
    >)
        ensures
            search_outcome(search, res),
    {
        match search {
            Ok(path) => Ok(path),
            Err(message) => {
                let mut text = String::from_str("Could not find FFmpeg. ");
                text.append(message.as_str());
                text.append(
                    "\nOn Windows, place ffmpeg.exe beside cortinizer.exe.\nOn Linux/macOS, install ffmpeg through your package manager.",
                );
                Err(CortinizerError::ConfigError(text))
            },
        }
    }

    /// Find the FFmpeg executable: on Windows, `ffmpeg.exe` beside the program
    /// where `is_present` says it is there; otherwise (or where it is not there)
    /// the result of `search`, the search of the `PATH`, as `ffmpeg_from_search`
    /// turns it into a path or an error.
    pub fn find_ffmpeg<E: Fn(&String) -> bool, S: Fn() -> Result<String, String>>(
        program_dir: &str,
        on_windows: bool,
        is_present: E,
        search: S,
    ) -> (res: Result<String, CortinizerError>)
        requires
            forall|p: &String| call_requires(is_present, (p,)),
            call_requires(search, ()),
        ensures
            ({
                let bundled = path_join(program_dir@, "ffmpeg.exe"@);
                ||| on_windows && saw(is_present, bundled, true) && gives_text(res, bundled)
                ||| (!on_windows || saw(is_present, bundled, false)) && exists|found: Result<String, String>|
                    #[trigger] call_ensures(search, (), found) && search_outcome(found, res)
            }),
    {
        let bundled = Self::bundled_ffmpeg_path(program_dir);
        if on_windows {
            let present = is_present(&bundled);
            proof {
                assert(call_ensures(is_present, (&bundled,), present));
            }
            if present {
                return Ok(bundled);
            }
        }
        let found = search();
        let res = Self::ffmpeg_from_search(found);
        proof {
            assert(call_ensures(search, (), found));
        }
        res
    }

    /// Calculate the start time (in seconds) of the fade-out effect
    pub fn calculate_fade_start(&self) -> (start: u32)
        ensures
            start == fade_start(self.cortina_length as nat),
    {
        if self.cortina_length > FADE_SECONDS {
            self.cortina_length - FADE_SECONDS
        } else {
            0
        }
    }

    /// Get the fade duration in seconds
    pub fn fade_duration(&self) -> (duration: u32)
        ensures
            duration == fade_length(self.cortina_length as nat),
    {
        if self.cortina_length < FADE_SECONDS {
            self.cortina_length
        } else {
            FADE_SECONDS
        }
    }
}

/// The fade-out ends exactly where the cortina ends: its start and its length
/// add up to the cortina length, whatever that length is.
pub proof fn lemma_fade_ends_with_cortina(cortina_length: nat)
    ensures
        fade_start(cortina_length) + fade_length(cortina_length) == cortina_length,
        fade_length(cortina_length) <= FADE_SECONDS,
{
}

} // verus!
