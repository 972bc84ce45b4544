//! Input classification and output naming.

use vstd::prelude::*;
use crate::error::CortinizerError;
use crate::paths::{
    extension, extension_spec, file_name, file_stem, file_stem_spec, join_paths, lowercase_of,
    parent_of, path_file_name, path_join, path_parent, path_strip_prefix,
    strip_prefix_of, text_lowercase,
};
use crate::text::{decimal, decimal_string, last_dot, split_name};

verus! {

/// Represents an input item (either a file or a folder)
#[derive(Debug, Clone)]
pub enum InputItem {
    AudioFile(String),
    Folder(String),
}

impl InputItem {
    /// The path this item stands for.
    pub open spec fn path_view(&self) -> Seq<char> {
        match self {
            InputItem::AudioFile(p) => p@,
            InputItem::Folder(p) => p@,
        }
    }

    /// Get the path of this input item
    pub fn path(&self) -> (p: &String)
        ensures
            p@ == self.path_view(),
    {
        match self {
            InputItem::AudioFile(path) => path,
            InputItem::Folder(path) => path,
        }
    }

    /// Check if this item is a folder
    pub fn is_folder(&self) -> (b: bool)
        ensures
            b == (self is Folder),
    {
        matches!(self, InputItem::Folder(_))
    }
}

/// An error is `UnsupportedFormat` with the given message.
pub open spec fn is_unsupported(e: CortinizerError, message: Seq<char>) -> bool {
    e matches CortinizerError::UnsupportedFormat(m) && m@ == message
}

/// A result fails with `UnsupportedFormat` and the given message.
pub open spec fn fails_unsupported<T>(res: Result<T, CortinizerError>, message: Seq<char>) -> bool {
    res matches Err(e) && is_unsupported(e, message)
}

/// A result fails with `IoError` and the given message.
pub open spec fn fails_io<T>(res: Result<T, CortinizerError>, message: Seq<char>) -> bool {
    res matches Err(e) && e matches CortinizerError::IoError(m) && m@ == message
}

/// A result is a success holding the given text.
pub open spec fn gives_text(res: Result<String, CortinizerError>, text: Seq<char>) -> bool {
    res matches Ok(s) && s@ == text
}

/// The lowercase extensions of the supported audio formats.
pub open spec fn is_supported_extension(lower: Seq<char>) -> bool {
    lower == "mp3"@ || lower == "flac"@
}

/// A path names an audio file: its extension, lowercased, is a supported one.
pub open spec fn is_audio_path(path: Seq<char>) -> bool {
    match extension_spec(path) {
        Some(ext) => is_supported_extension(text_lowercase(ext)),
        None => false,
    }
}

/// Whether `lower` (an already lowercased extension) is one of the supported
/// audio extensions.
pub fn is_supported_audio_extension(lower: &String) -> (b: bool)
    ensures
        b == is_supported_extension(lower@),
        b <==> (lower@ == "mp3"@ || lower@ == "flac"@),
{
    let mp3 = String::from_str("mp3");
    let flac = String::from_str("flac");
    *lower == mp3 || *lower == flac
}

/// Check if a file is an audio file based on its extension
pub fn is_audio_file(path: &str) -> (b: bool)
    ensures
        b == is_audio_path(path@),
        b <==> (extension_spec(path@) is Some && (text_lowercase(extension_spec(path@).unwrap())
            == "mp3"@ || text_lowercase(extension_spec(path@).unwrap()) == "flac"@)),
{
    match extension(path) {
        Some(ext) => {
            let lower = lowercase_of(ext.as_str());
            is_supported_audio_extension(&lower)
        },
        None => false,
    }
}

/// The supported audio formats are exactly MP3 and FLAC: a path is an audio
/// path if and only if it has an extension whose lowercase form is `mp3` or
/// `flac`.
pub proof fn lemma_audio_paths_are_mp3_or_flac(path: Seq<char>)
    ensures
        is_audio_path(path) <==> (extension_spec(path) is Some && (text_lowercase(
            extension_spec(path).unwrap(),
        ) == "mp3"@ || text_lowercase(extension_spec(path).unwrap()) == "flac"@)),
{
}

/// What is known of a path on disk.
#[derive(Debug, Clone, Copy, PartialEq, Eq)]
pub enum PathKind {
    /// Nothing exists at the path.
    Missing,
    /// A regular file.
    File,
    /// A directory.
    Directory,
    /// Something that is neither a file nor a directory.
    Other,
}

/// A warning given while categorizing inputs.
#[derive(Debug, Clone)]
pub enum InputWarning {
    /// Path does not exist
    PathDoesNotExist(String),
    /// Not a supported audio file
    NotSupportedAudio(String),
}

/// The input item, if any, that a probed path becomes.
pub open spec fn item_of(path: String, kind: PathKind) -> Option<InputItem> {
    match kind {
        PathKind::File => if is_audio_path(path@) {
            Some(InputItem::AudioFile(path))
        } else {
            None
        },
        PathKind::Directory => Some(InputItem::Folder(path)),
        _ => None,
    }
}

/// The warning, if any, that a probed path gives.
pub open spec fn warning_of(path: String, kind: PathKind) -> Option<InputWarning> {
    match kind {
        PathKind::Missing => Some(InputWarning::PathDoesNotExist(path)),
        PathKind::File => if is_audio_path(path@) {
            None
        } else {
            Some(InputWarning::NotSupportedAudio(path))
        },
        _ => None,
    }
}

/// The optional value as a sequence of zero or one element.
pub open spec fn opt_seq<A>(o: Option<A>) -> Seq<A> {
    match o {
        Some(a) => seq![a],
        None => Seq::empty(),
    }
}

/// The items that a list of probed paths becomes, in order.
pub open spec fn categorized_items(probed: Seq<(String, PathKind)>) -> Seq<InputItem>
    decreases probed.len(),
{
    if probed.len() == 0 {
        Seq::empty()
    } else {
        categorized_items(probed.drop_last()) + opt_seq(item_of(probed.last().0, probed.last().1))
    }
}

/// The warnings that a list of probed paths gives, in order.
pub open spec fn categorized_warnings(probed: Seq<(String, PathKind)>) -> Seq<InputWarning>
    decreases probed.len(),
{
    if probed.len() == 0 {
        Seq::empty()
    } else {
        categorized_warnings(probed.drop_last()) + opt_seq(
            warning_of(probed.last().0, probed.last().1),
        )
    }
}

/// How categorizing grows with one more probed path: a directory adds exactly
/// a folder item with its path and no warning, whatever its name; an existing
/// file with a supported audio extension adds exactly an audio-file item; any
/// other file adds no item and exactly a "not supported" warning; a missing
/// path adds no item and exactly a "does not exist" warning; anything else adds
/// nothing.
pub proof fn lemma_categorize_one_more(probed: Seq<(String, PathKind)>, path: String, kind: PathKind)
    ensures
        kind == PathKind::Directory ==> categorized_items(probed.push((path, kind)))
            == categorized_items(probed).push(InputItem::Folder(path)) && categorized_warnings(
            probed.push((path, kind)),
        ) == categorized_warnings(probed),
        kind == PathKind::File && is_audio_path(path@) ==> categorized_items(
            probed.push((path, kind)),
        ) == categorized_items(probed).push(InputItem::AudioFile(path)) && categorized_warnings(
            probed.push((path, kind)),
        ) == categorized_warnings(probed),
        kind == PathKind::File && !is_audio_path(path@) ==> categorized_items(
            probed.push((path, kind)),
        ) == categorized_items(probed) && categorized_warnings(probed.push((path, kind)))
            == categorized_warnings(probed).push(InputWarning::NotSupportedAudio(path)),
        kind == PathKind::Missing ==> categorized_items(probed.push((path, kind)))
            == categorized_items(probed) && categorized_warnings(probed.push((path, kind)))
            == categorized_warnings(probed).push(InputWarning::PathDoesNotExist(path)),
        kind == PathKind::Other ==> categorized_items(probed.push((path, kind)))
            == categorized_items(probed) && categorized_warnings(probed.push((path, kind)))
            == categorized_warnings(probed),
{
    let longer = probed.push((path, kind));
    assert(longer.drop_last() =~= probed);
    assert(longer.last() == (path, kind));
    assert(categorized_items(probed) + Seq::<InputItem>::empty() =~= categorized_items(probed));
    assert(categorized_warnings(probed) + Seq::<InputWarning>::empty() =~= categorized_warnings(
        probed,
    ));
    assert(categorized_items(probed) + seq![InputItem::Folder(path)] =~= categorized_items(
        probed,
    ).push(InputItem::Folder(path)));
    assert(categorized_items(probed) + seq![InputItem::AudioFile(path)] =~= categorized_items(
        probed,
    ).push(InputItem::AudioFile(path)));
    assert(categorized_warnings(probed) + seq![InputWarning::NotSupportedAudio(path)]
        =~= categorized_warnings(probed).push(InputWarning::NotSupportedAudio(path)));
    assert(categorized_warnings(probed) + seq![InputWarning::PathDoesNotExist(path)]
        =~= categorized_warnings(probed).push(InputWarning::PathDoesNotExist(path)));
}

/// Categorize probed input paths into files and folders: an existing file
/// with a supported audio extension becomes an audio file, a directory becomes
/// a folder; a missing path or an unsupported file gives a warning instead;
/// anything else is passed over.
pub fn categorize_inputs(probed: &Vec<(String, PathKind)>) -> (res: (
    Vec<InputItem>,
    Vec<InputWarning>,
))
    ensures
        res.0@ == categorized_items(probed@),
        res.1@ == categorized_warnings(probed@),
{
    let mut items: Vec<InputItem> = Vec::new();
    let mut warnings: Vec<InputWarning> = Vec::new();
    let mut i: usize = 0;
    while i < probed.len()
        invariant
            i <= probed@.len(),
            items@ == categorized_items(probed@.take(i as int)),
            warnings@ == categorized_warnings(probed@.take(i as int)),
        decreases probed@.len() - i,
    {
        let path = probed[i].0.clone();
        let kind = probed[i].1;
        proof {
            assert(probed@.take(i + 1).drop_last() =~= probed@.take(i as int));
            assert(probed@.take(i + 1).last() == probed@[i as int]);
        }
        match kind {
            PathKind::Missing => {
                warnings.push(InputWarning::PathDoesNotExist(path));
            },
            PathKind::File => {
                if is_audio_file(path.as_str()) {
                    items.push(InputItem::AudioFile(path));
                } else {
                    warnings.push(InputWarning::NotSupportedAudio(path));
                }
            },
            PathKind::Directory => {
                items.push(InputItem::Folder(path));
            },
            PathKind::Other => {},
        }
        i = i + 1;
    }
    proof {
        assert(probed@.take(probed@.len() as int) =~= probed@);
    }
    (items, warnings)
}

/// The paths that a directory walk keeps: regular files with an audio extension.
pub open spec fn selected_audio_files(entries: Seq<(String, bool)>) -> Seq<String>
    decreases entries.len(),
{
    if entries.len() == 0 {
        Seq::empty()
    } else {
        let (path, is_file) = entries.last();
        selected_audio_files(entries.drop_last()) + if is_file && is_audio_path(path@) {
            seq![path]
        } else {
            Seq::empty()
        }
    }
}

/// Keep, in order, the walked entries that are regular files (`true` beside
/// the path) with a supported audio extension.
pub fn select_audio_files(entries: &Vec<(String, bool)>) -> (files: Vec<String>)
    ensures
        files@ == selected_audio_files(entries@),
{
    let mut files: Vec<String> = Vec::new();
    let mut i: usize = 0;
    while i < entries.len()
        invariant
            i <= entries@.len(),
            files@ == selected_audio_files(entries@.take(i as int)),
        decreases entries@.len() - i,
    {
        proof {
            assert(entries@.take(i + 1).drop_last() =~= entries@.take(i as int));
            assert(entries@.take(i + 1).last() == entries@[i as int]);
        }
        if entries[i].1 && is_audio_file(entries[i].0.as_str()) {
            files.push(entries[i].0.clone());
        }
        i = i + 1;
    }
    proof {
        assert(entries@.take(entries@.len() as int) =~= entries@);
    }
    files
}

/// The output extension of a path: its extension, lowercased.
pub open spec fn output_extension_spec(path: Seq<char>) -> Option<Seq<char>> {
    match extension_spec(path) {
        Some(ext) => Some(text_lowercase(ext)),
        None => None,
    }
}

/// Get the output extension for an input file (preserves format)
pub fn get_output_extension(input_path: &str) -> (res: Result<String, CortinizerError>)
    ensures
        output_extension_spec(input_path@) matches Some(ext) ==> gives_text(res, ext),
        output_extension_spec(input_path@) is None ==> fails_unsupported(res, "Could not determine file extension"@),
{
    match extension(input_path) {
        Some(ext) => Ok(lowercase_of(ext.as_str())),
        None => Err(
            CortinizerError::UnsupportedFormat(String::from_str("Could not determine file extension")),
        ),
    }
}

/// The name of a cortina file: `cortina{length}_{stem}.{extension}`.
pub open spec fn cortina_file_name(cortina_length: u32, stem: Seq<char>, ext: Seq<char>) -> Seq<
    char,
> {
    "cortina"@ + decimal(cortina_length as nat) + "_"@ + stem + "."@ + ext
}

pub(crate) proof fn lemma_last_dot_past_suffix(a: Seq<char>, b: Seq<char>)
    requires
        !b.contains('.'),
    ensures
        last_dot(a + b) == last_dot(a),
    decreases b.len(),
{
    if b.len() == 0 {
        assert(a + b =~= a);
    } else {
        assert((a + b).last() == b.last());
        assert(b.last() != '.') by {
            if b.last() == '.' {
                assert(b.contains('.')) by { assert(b[b.len() - 1] == '.'); }
            }
        }
        assert((a + b).drop_last() =~= a + b.drop_last());
        assert(!b.drop_last().contains('.')) by {
            if b.drop_last().contains('.') {
                let i = choose|i: int| 0 <= i < b.drop_last().len() && b.drop_last()[i] == '.';
                assert(b[i] == '.');
            }
        }
        lemma_last_dot_past_suffix(a, b.drop_last());
    }
}

/// A cortina file name keeps the extension it was built with: split as a file
/// name, `cortina{length}_{stem}.{ext}` has the stem `cortina{length}_{stem}`
/// and the extension `ext`, for an extension without a `.` (as every
/// extension split off a file name is).
pub proof fn lemma_cortina_name_keeps_extension(cortina_length: u32, stem: Seq<char>, ext: Seq<char>)
    requires
        !ext.contains('.'),
    ensures
        split_name(cortina_file_name(cortina_length, stem, ext)) == (
            "cortina"@ + decimal(cortina_length as nat) + "_"@ + stem,
            Some(ext),
        ),
{
    reveal_strlit(".");
    let head = "cortina"@ + decimal(cortina_length as nat) + "_"@ + stem;
    let with_dot = head + "."@;
    let name = cortina_file_name(cortina_length, stem, ext);
    assert(name =~= with_dot + ext);
    lemma_last_dot_past_suffix(with_dot, ext);
    assert(with_dot.last() == '.');
    assert(last_dot(with_dot) == Some(head.len() as int));
    assert(head.len() >= 7) by {
        reveal_strlit("cortina");
    }
    assert(name.len() > 2);
    assert(!(name =~= seq!['.', '.']));
    assert(name.take(head.len() as int) =~= head);
    assert(name.skip(head.len() as int + 1) =~= ext);
}

/// Build the name of a cortina file: `cortina{length}_{stem}.{extension}`.
pub fn cortina_file_name_of(cortina_length: u32, stem: &str, ext: &str) -> (name: String)
    ensures
        name@ == cortina_file_name(cortina_length, stem@, ext@),
{
    let mut name = String::from_str("cortina");
    let number = decimal_string(cortina_length as u64);
    name.append(number.as_str());
    name.append("_");
    name.append(stem);
    name.append(".");
    name.append(ext);
    name
}

/// Get the output path for a single audio file
pub fn get_output_path_for_file(input_path: &str, program_dir: &str, cortina_length: u32) -> (res:
    Result<String, CortinizerError>)
    ensures
        file_stem_spec(input_path@) is None ==> fails_unsupported(res, "Could not determine file name"@),
        file_stem_spec(input_path@) is Some && output_extension_spec(input_path@) is None
            ==> fails_unsupported(res, "Could not determine file extension"@),
        file_stem_spec(input_path@) is Some && output_extension_spec(input_path@) is Some
            ==> gives_text(
            res,
            path_join(
                program_dir@,
                cortina_file_name(
                    cortina_length,
                    file_stem_spec(input_path@).unwrap(),
                    output_extension_spec(input_path@).unwrap(),
                ),
            ),
        ),
{
    let stem = match file_stem(input_path) {
        Some(s) => s,
        None => {
            return Err(
                CortinizerError::UnsupportedFormat(String::from_str("Could not determine file name")),
            );
        },
    };
    let extension = match get_output_extension(input_path) {
        Ok(e) => e,
        Err(e) => {
            return Err(e);
        },
    };
    let output_filename = cortina_file_name_of(cortina_length, stem.as_str(), extension.as_str());
    Ok(join_paths(program_dir, output_filename.as_str()))
}

/// Where a file of a folder lands below the output base: in the same
/// subdirectory as below the folder, where the relative path has a parent.
pub open spec fn nested_output_path(
    output_base: Seq<char>,
    relative_parent: Option<Seq<char>>,
    name: Seq<char>,
) -> Seq<char> {
    match relative_parent {
        Some(parent) => path_join(path_join(output_base, parent), name),
        None => path_join(output_base, name),
    }
}

/// The output path of an audio file of a folder below the output base, where
/// the relative path, the stem and the extension are all defined.
pub open spec fn folder_file_output_path(
    output_base: Seq<char>,
    folder_path: Seq<char>,
    audio_file_path: Seq<char>,
    cortina_length: u32,
) -> Seq<char> {
    nested_output_path(
        output_base,
        path_parent(path_strip_prefix(audio_file_path, folder_path).unwrap()),
        cortina_file_name(
            cortina_length,
            file_stem_spec(audio_file_path).unwrap(),
            output_extension_spec(audio_file_path).unwrap(),
        ),
    )
}

/// Get the output path of an audio file found in a folder, below a given
/// output base (the relative structure of the folder is preserved)
pub fn get_output_path_under_base(
    output_base: &str,
    folder_path: &str,
    audio_file_path: &str,
    cortina_length: u32,
) -> (res: Result<String, CortinizerError>)
    ensures
        path_strip_prefix(audio_file_path@, folder_path@) is None ==> fails_io(res, "Could not calculate relative path"@),
        path_strip_prefix(audio_file_path@, folder_path@) is Some && file_stem_spec(
            audio_file_path@,
        ) is None ==> fails_unsupported(res, "Could not determine file name"@),
        path_strip_prefix(audio_file_path@, folder_path@) is Some && file_stem_spec(
            audio_file_path@,
        ) is Some && output_extension_spec(audio_file_path@) is None ==> fails_unsupported(res, "Could not determine file extension"@),
        path_strip_prefix(audio_file_path@, folder_path@) is Some && file_stem_spec(
            audio_file_path@,
        ) is Some && output_extension_spec(audio_file_path@) is Some ==> gives_text(
            res,
            folder_file_output_path(output_base@, folder_path@, audio_file_path@, cortina_length),
        ),
{
    let relative_path = match strip_prefix_of(audio_file_path, folder_path) {
        Some(r) => r,
        None => {
            return Err(
                CortinizerError::IoError(String::from_str("Could not calculate relative path")),
            );
        },
    };
    let parent_dir = parent_of(relative_path.as_str());
    let stem = match file_stem(audio_file_path) {
        Some(s) => s,
        None => {
            return Err(
                CortinizerError::UnsupportedFormat(String::from_str("Could not determine file name")),
            );
        },
    };
    let extension = match get_output_extension(audio_file_path) {
        Ok(e) => e,
        Err(e) => {
            return Err(e);
        },
    };
    let name = cortina_file_name_of(cortina_length, stem.as_str(), extension.as_str());
    let output_path = match parent_dir {
        Some(parent) => {
            let dir = join_paths(output_base, parent.as_str());
            join_paths(dir.as_str(), name.as_str())
        },
        None => join_paths(output_base, name.as_str()),
    };
    Ok(output_path)
}

/// Get the output path for a folder (preserves relative structure)
pub fn get_output_path_for_folder(
    folder_path: &str,
    program_dir: &str,
    audio_file_path: &str,
    cortina_length: u32,
) -> (res: Result<String, CortinizerError>)
    ensures
        path_file_name(folder_path@) is None ==> fails_unsupported(res, "Could not determine folder name"@),
        path_file_name(folder_path@) matches Some(folder_name) ==> {
            let output_base = path_join(program_dir@, folder_name);
            &&& path_strip_prefix(audio_file_path@, folder_path@) is None ==> fails_io(res, "Could not calculate relative path"@)
            &&& path_strip_prefix(audio_file_path@, folder_path@) is Some && file_stem_spec(
                audio_file_path@,
            ) is None ==> fails_unsupported(res, "Could not determine file name"@)
            &&& path_strip_prefix(audio_file_path@, folder_path@) is Some && file_stem_spec(
                audio_file_path@,
            ) is Some && output_extension_spec(audio_file_path@) is None ==> fails_unsupported(res, "Could not determine file extension"@)
            &&& path_strip_prefix(audio_file_path@, folder_path@) is Some && file_stem_spec(
                audio_file_path@,
            ) is Some && output_extension_spec(audio_file_path@) is Some ==> gives_text(
                res,
                folder_file_output_path(output_base, folder_path@, audio_file_path@, cortina_length),
            )
        },
{
    let folder_name = match file_name(folder_path) {
        Some(n) => n,
        None => {
            return Err(
                CortinizerError::UnsupportedFormat(String::from_str("Could not determine folder name")),
            );
        },
    };
    let output_base = join_paths(program_dir, folder_name.as_str());
    get_output_path_under_base(output_base.as_str(), folder_path, audio_file_path, cortina_length)
}

} // verus!
