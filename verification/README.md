# cortinizer

Generates tango cortinas (short excerpts with a fade-out) from MP3 and FLAC
files with FFmpeg. The decisions of the tool are a Verus-verified library;
the program around it does the I/O.

- `src/` — the verified library
  - `paths.rs`: paths as text; `std::path` answers component questions through
    small trusted wrappers, file stem and extension are derived and proved here
  - `text.rs`: stem/extension split of a file name, decimal numbers
  - `file_handler.rs`: input classification, output names
    (`cortina{length}_{stem}.{ext}`, folder structure preserved)
  - `output_manager.rs`: collision handling (`_1`, `_2`, ...) that never picks a
    taken path while a free one exists,
    with the existence check handed in by the caller
  - `config.rs`, `cli.rs`: configuration, fade-out arithmetic, argument checks
  - `ffmpeg.rs`: trim and fade-out (in microseconds), filter, codec and the
    command lines of FFmpeg and FFprobe
  - `metadata.rs`: which tag copy an output gets
  - `audio_processor.rs`, `summary.rs`, `error.rs`: batch decisions, records,
    summary and exit code
- `app/` — the command-line program: argument parsing, file system, FFmpeg
  processes, logging, tag copying, concurrency
- `tests/` — tests of the library
