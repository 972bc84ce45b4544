//! Verified core of a tool that cuts tango cortinas out of MP3 and FLAC files:
//! naming of output files, collision handling, input classification, FFmpeg
//! command construction and result bookkeeping.

pub mod audio_processor;
pub mod cli;
pub mod config;
pub mod error;
pub mod ffmpeg;
pub mod file_handler;
pub mod metadata;
pub mod output_manager;
pub mod paths;
pub mod summary;
pub mod text;
