//! Which metadata copy an output file gets.
//!
//! Reading and writing tags is I/O and is carried out by the caller; the
//! library decides, from the input's extension, whether tags are copied and in
//! which format.

use vstd::prelude::*;
use crate::error::CortinizerError;
use crate::file_handler::{fails_unsupported, output_extension_spec};
use crate::paths::{extension, lowercase_of};

verus! {

/// The tag format of an audio file.
#[derive(Debug, Clone, Copy, PartialEq, Eq)]
pub enum TagFormat {
    /// ID3 tags of an MP3 file
    Id3,
    /// Vorbis comments of a FLAC file
    VorbisComments,
}

/// What a metadata copy consists of.
#[derive(Debug, Clone)]
pub enum MetadataCopy {
    /// Copy the tags of `from` to `to`; a failure to read or to write them is
    /// passed over (best effort).
    CopyTags { format: TagFormat, from: String, to: String },
    /// Nothing to copy for this format.
    Unsupported,
}

/// The tag format that a lowercase extension calls for.
pub open spec fn tag_format_of(lower_ext: Seq<char>) -> Option<TagFormat> {
    if lower_ext == "mp3"@ {
        Some(TagFormat::Id3)
    } else if lower_ext == "flac"@ {
        Some(TagFormat::VorbisComments)
    } else {
        None
    }
}

/// Copy metadata from input file to output file: decide, from the input's
/// extension, what the copy consists of. An input without an extension is an
/// error; one of another format than MP3 or FLAC is nothing to copy.
pub fn copy_metadata(input_path: &str, output_path: &str) -> (res: Result<
    MetadataCopy,
    CortinizerError,
>)
    ensures
        output_extension_spec(input_path@) is None ==> fails_unsupported(
            res,
            "Could not determine file extension"@,
        ),
        output_extension_spec(input_path@) matches Some(ext) ==> res matches Ok(copy) && match tag_format_of(ext) {
            Some(f) => copy matches MetadataCopy::CopyTags { format, from, to } && format == f
                && from@ == input_path@ && to@ == output_path@,
            None => copy is Unsupported,
        },
{
    let ext = match extension(input_path) {
        Some(e) => lowercase_of(e.as_str()),
        None => {
            return Err(
                CortinizerError::UnsupportedFormat(
                    String::from_str("Could not determine file extension"),
                ),
            );
        },
    };
    let mp3 = String::from_str("mp3");
    let flac = String::from_str("flac");
    if ext == mp3 {
        Ok(MetadataCopy::CopyTags {
            format: TagFormat::Id3,
            from: String::from_str(input_path),
            to: String::from_str(output_path),
        })
    } else if ext == flac {
        Ok(MetadataCopy::CopyTags {
            format: TagFormat::VorbisComments,
            from: String::from_str(input_path),
            to: String::from_str(output_path),
        })
    } else {
        Ok(MetadataCopy::Unsupported)
    }
}

} // verus!
