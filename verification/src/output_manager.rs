//! Collision handling for output files and folders.
//!
//! Whether a path is taken is a question about the disk, which the library
//! does not ask itself: the caller hands in `is_taken`, and the contracts speak
//! of what `is_taken` answered for each candidate it was asked about.

use vstd::prelude::*;
use crate::paths::{
    extension, extension_spec, file_name, file_stem, file_stem_spec, join_paths, parent_or_empty,
    parent_or_empty_path, path_file_name, path_join,
};
use crate::text::{
    decimal, decimal_string, last_dot, lemma_decimal_has_no_dot, lemma_decimal_injective,
    lemma_last_dot, split_name,
};
use crate::file_handler::lemma_last_dot_past_suffix;

verus! {

/// The highest numeric suffix that is tried: the largest counter the suffix
/// type holds. Only where every one of these is taken (more paths than any
/// file system holds in one directory) does the search end without a free path.
pub const MAX_SUFFIX: u32 = 4294967295;

/// `is_taken` answered `answer` when it was asked about a path with the text `path`.
pub open spec fn saw<F: Fn(&String) -> bool>(is_taken: F, path: Seq<char>, answer: bool) -> bool {
    exists|s: &String| s@ == path && #[trigger] call_ensures(is_taken, (s,), answer)
}

/// The search for a free path went as the collision rule says: the desired path
/// where it was free; else the first numbered candidate, in the order 1, 2, ...,
/// `MAX_SUFFIX`, that was free, all earlier ones having been taken; else, all
/// being taken, the desired path after all.
pub open spec fn unique_choice<F: Fn(&String) -> bool>(
    is_taken: F,
    desired: Seq<char>,
    candidate: spec_fn(nat) -> Seq<char>,
    chosen: Seq<char>,
) -> bool {
    ||| saw(is_taken, desired, false) && chosen == desired
    ||| saw(is_taken, desired, true) && exists|k: nat|
        #![trigger candidate(k)]
        1 <= k <= MAX_SUFFIX && chosen == candidate(k) && saw(is_taken, candidate(k), false) && (
        forall|j: nat| #![trigger candidate(j)] 1 <= j < k ==> saw(is_taken, candidate(j), true))
    ||| saw(is_taken, desired, true) && (forall|j: nat|
        #![trigger candidate(j)]
        1 <= j <= MAX_SUFFIX ==> saw(is_taken, candidate(j), true)) && chosen == desired
}

/// Where `is_taken` answers whether a path is in `taken`, and the desired path
/// or some numbered candidate up to `MAX_SUFFIX` is free, `chosen` is free.
pub open spec fn free_whenever_possible<F: Fn(&String) -> bool>(
    is_taken: F,
    desired: Seq<char>,
    candidate: spec_fn(nat) -> Seq<char>,
    chosen: Seq<char>,
) -> bool {
    forall|taken: Set<Seq<char>>|
        #![trigger taken.contains(chosen)]
        (forall|s: &String, b: bool| #[trigger] call_ensures(is_taken, (s,), b) ==> b == taken.contains(s@))
            && (!taken.contains(desired) || exists|k: nat|
            #![trigger candidate(k)]
            1 <= k <= MAX_SUFFIX && !taken.contains(candidate(k))) ==> !taken.contains(chosen)
}

/// The file name of the `k`-th numbered candidate for an output file:
/// `{stem}_{k}.{extension}` (no `.` part where the path has no extension).
pub open spec fn numbered_file_name(path: Seq<char>, k: nat) -> Seq<char> {
    let stem = match file_stem_spec(path) {
        Some(s) => s,
        None => "output"@,
    };
    let dot_ext = match extension_spec(path) {
        Some(e) => "."@ + e,
        None => Seq::empty(),
    };
    stem + "_"@ + decimal(k) + dot_ext
}

/// The `k`-th numbered candidate for an output file, beside the desired path.
pub open spec fn numbered_file_path(path: Seq<char>, k: nat) -> Seq<char> {
    path_join(parent_or_empty(path), numbered_file_name(path, k))
}

/// The `k`-th numbered candidate for an output folder: `{name}_{k}` beside it.
pub open spec fn numbered_folder_path(path: Seq<char>, k: nat) -> Seq<char> {
    let name = match path_file_name(path) {
        Some(n) => n,
        None => "output"@,
    };
    path_join(parent_or_empty(path), name + "_"@ + decimal(k))
}

/// Look for the first free path among the desired one and its numbered
/// candidates; `prefix` and `suffix` frame the number in the candidate's final
/// component, which lands in `parent`.
fn first_free_path<F: Fn(&String) -> bool>(
    desired: String,
    parent: &String,
    prefix: &String,
    suffix: &String,
    is_taken: F,
    Ghost(candidate): Ghost<spec_fn(nat) -> Seq<char>>,
) -> (chosen: String)
    requires
        forall|s: &String| call_requires(is_taken, (s,)),
        forall|k: nat|
            #![trigger candidate(k)]
            candidate(k) == path_join(parent@, prefix@ + "_"@ + decimal(k) + suffix@),
    ensures
        unique_choice(is_taken, desired@, candidate, chosen@),
{
    let desired_taken = is_taken(&desired);
    proof {
        assert(call_ensures(is_taken, (&desired,), desired_taken));
    }
    if !desired_taken {
        return desired;
    }
    let mut counter: u32 = 1;
    loop
        invariant
            1 <= counter <= MAX_SUFFIX,
            forall|s: &String| call_requires(is_taken, (s,)),
            forall|k: nat|
                #![trigger candidate(k)]
                candidate(k) == path_join(parent@, prefix@ + "_"@ + decimal(k) + suffix@),
            saw(is_taken, desired@, true),
            forall|j: nat| #![trigger candidate(j)] 1 <= j < counter ==> saw(is_taken, candidate(j), true),
        decreases MAX_SUFFIX - counter,
    {
        let mut name = prefix.clone();
        name.append("_");
        let number = decimal_string(counter as u64);
        name.append(number.as_str());
        name.append(suffix.as_str());
        let path = join_paths(parent.as_str(), name.as_str());
        let taken = is_taken(&path);
        proof {
            assert(path@ == candidate(counter as nat));
            assert(call_ensures(is_taken, (&path,), taken));
            assert(saw(is_taken, candidate(counter as nat), taken));
        }
        if !taken {
            return path;
        }
        if counter == MAX_SUFFIX {
            return desired;
        }
        counter = counter + 1;
    }
}

/// Get a unique output path by adding numeric suffixes if the file exists
///
/// If the output path already exists (as `is_taken` answers), `_1`, `_2`, ...
/// are appended to the file stem until a free path is found, so that no
/// existing file is overwritten. The search ends at the largest suffix the
/// counter holds (`MAX_SUFFIX`); only where all of those are taken is the
/// output path returned as it is.
pub fn get_unique_output_path<F: Fn(&String) -> bool>(output_path: String, is_taken: F) -> (res:
    String)
    requires
        forall|s: &String| call_requires(is_taken, (s,)),
    ensures
        unique_choice(is_taken, output_path@, |k: nat| numbered_file_path(output_path@, k), res@),
        free_whenever_possible(is_taken, output_path@, |k: nat| numbered_file_path(output_path@, k), res@),
{
    let parent = parent_or_empty_path(output_path.as_str());
    let stem = match file_stem(output_path.as_str()) {
        Some(s) => s,
        None => String::from_str("output"),
    };
    let dot_ext = match extension(output_path.as_str()) {
        Some(e) => {
            let mut d = String::from_str(".");
            d.append(e.as_str());
            d
        },
        None => String::new(),
    };
    let ghost candidate = |k: nat| numbered_file_path(output_path@, k);
    let ghost desired = output_path@;
    proof {
        assert forall|k: nat| #![trigger candidate(k)] candidate(k) == path_join(
            parent@,
            stem@ + "_"@ + decimal(k) + dot_ext@,
        ) by {
            assert(numbered_file_name(output_path@, k) =~= stem@ + "_"@ + decimal(k) + dot_ext@);
        }
    }
    let res = first_free_path(output_path, &parent, &stem, &dot_ext, is_taken, Ghost(candidate));
    proof {
        lemma_choice_is_free_whenever_possible(is_taken, desired, candidate, res@);
    }
    res
}

/// Get a unique output folder path by adding numeric suffixes if the folder exists
///
/// Like `get_unique_output_path`, for a folder: `_1`, `_2`, ... (up to
/// `MAX_SUFFIX`) are appended to the folder name until a free one is found.
pub fn get_unique_folder_path<F: Fn(&String) -> bool>(folder_path: String, is_taken: F) -> (res:
    String)
    requires
        forall|s: &String| call_requires(is_taken, (s,)),
    ensures
        unique_choice(is_taken, folder_path@, |k: nat| numbered_folder_path(folder_path@, k), res@),
        free_whenever_possible(is_taken, folder_path@, |k: nat| numbered_folder_path(folder_path@, k), res@),
{
    let parent = parent_or_empty_path(folder_path.as_str());
    let name = match file_name(folder_path.as_str()) {
        Some(n) => n,
        None => String::from_str("output"),
    };
    let empty = String::new();
    let ghost candidate = |k: nat| numbered_folder_path(folder_path@, k);
    let ghost desired = folder_path@;
    proof {
        assert forall|k: nat| #![trigger candidate(k)] candidate(k) == path_join(
            parent@,
            name@ + "_"@ + decimal(k) + empty@,
        ) by {
            assert(name@ + "_"@ + decimal(k) + empty@ =~= name@ + "_"@ + decimal(k));
        }
    }
    let res = first_free_path(folder_path, &parent, &name, &empty, is_taken, Ghost(candidate));
    proof {
        lemma_choice_is_free_whenever_possible(is_taken, desired, candidate, res@);
    }
    res
}

/// The first free path among the numbered candidates `k`, `k + 1`, ...,
/// `MAX_SUFFIX`, or the desired path where all of them are in `taken`.
pub open spec fn first_free_from(
    taken: Set<Seq<char>>,
    desired: Seq<char>,
    candidate: spec_fn(nat) -> Seq<char>,
    k: nat,
) -> Seq<char>
    decreases MAX_SUFFIX + 1 - k,
{
    if k > MAX_SUFFIX {
        desired
    } else if !taken.contains(candidate(k)) {
        candidate(k)
    } else {
        first_free_from(taken, desired, candidate, k + 1)
    }
}

/// The path that the collision rule gives where the taken paths are `taken`:
/// the desired path where it is free, else the first free numbered candidate,
/// else the desired path.
pub open spec fn first_free(
    taken: Set<Seq<char>>,
    desired: Seq<char>,
    candidate: spec_fn(nat) -> Seq<char>,
) -> Seq<char> {
    if !taken.contains(desired) {
        desired
    } else {
        first_free_from(taken, desired, candidate, 1)
    }
}

proof fn lemma_first_free_from_hit(
    taken: Set<Seq<char>>,
    desired: Seq<char>,
    candidate: spec_fn(nat) -> Seq<char>,
    j: nat,
    k: nat,
)
    requires
        1 <= j <= k <= MAX_SUFFIX,
        !taken.contains(candidate(k)),
        forall|i: nat| #![trigger candidate(i)] j <= i < k ==> taken.contains(candidate(i)),
    ensures
        first_free_from(taken, desired, candidate, j) == candidate(k),
    decreases k - j,
{
    if j < k {
        assert(taken.contains(candidate(j)));
        lemma_first_free_from_hit(taken, desired, candidate, j + 1, k);
    }
}

proof fn lemma_first_free_from_miss(
    taken: Set<Seq<char>>,
    desired: Seq<char>,
    candidate: spec_fn(nat) -> Seq<char>,
    j: nat,
)
    requires
        1 <= j,
        forall|i: nat| #![trigger candidate(i)] j <= i <= MAX_SUFFIX ==> taken.contains(candidate(i)),
    ensures
        first_free_from(taken, desired, candidate, j) == desired,
    decreases MAX_SUFFIX + 1 - j,
{
    if j <= MAX_SUFFIX {
        assert(taken.contains(candidate(j)));
        lemma_first_free_from_miss(taken, desired, candidate, j + 1);
    }
}

/// Where `is_taken` answers whether a path is in the set `taken`, the path
/// that the collision search chooses is the first free one: the desired path
/// if it is free, else the first free numbered candidate, else (all of them
/// being taken) the desired path.
pub proof fn lemma_unique_choice_is_first_free<F: Fn(&String) -> bool>(
    is_taken: F,
    taken: Set<Seq<char>>,
    desired: Seq<char>,
    candidate: spec_fn(nat) -> Seq<char>,
    chosen: Seq<char>,
)
    requires
        forall|s: &String, b: bool| #[trigger] call_ensures(is_taken, (s,), b) ==> b == taken.contains(s@),
        unique_choice(is_taken, desired, candidate, chosen),
    ensures
        chosen == first_free(taken, desired, candidate),
{
    if saw(is_taken, desired, false) && chosen == desired {
        let s = choose|s: &String| s@ == desired && #[trigger] call_ensures(is_taken, (s,), false);
        assert(!taken.contains(desired));
    } else {
        assert(saw(is_taken, desired, true));
        let s = choose|s: &String| s@ == desired && #[trigger] call_ensures(is_taken, (s,), true);
        assert(taken.contains(desired));
        if exists|k: nat|
            #![trigger candidate(k)]
            1 <= k <= MAX_SUFFIX && chosen == candidate(k) && saw(is_taken, candidate(k), false) && (
            forall|j: nat| #![trigger candidate(j)] 1 <= j < k ==> saw(is_taken, candidate(j), true))
        {
            let k = choose|k: nat|
                #![trigger candidate(k)]
                1 <= k <= MAX_SUFFIX && chosen == candidate(k) && saw(is_taken, candidate(k), false) && (
                forall|j: nat| #![trigger candidate(j)] 1 <= j < k ==> saw(is_taken, candidate(j), true));
            let t = choose|t: &String| t@ == candidate(k) && #[trigger] call_ensures(is_taken, (t,), false);
            assert forall|i: nat| #![trigger candidate(i)] 1 <= i < k implies taken.contains(candidate(i)) by {
                assert(saw(is_taken, candidate(i), true));
                let u = choose|u: &String| u@ == candidate(i) && #[trigger] call_ensures(is_taken, (u,), true);
            }
            lemma_first_free_from_hit(taken, desired, candidate, 1, k);
        } else {
            assert forall|i: nat| #![trigger candidate(i)] 1 <= i <= MAX_SUFFIX implies taken.contains(candidate(i)) by {
                assert(saw(is_taken, candidate(i), true));
                let u = choose|u: &String| u@ == candidate(i) && #[trigger] call_ensures(is_taken, (u,), true);
            }
            lemma_first_free_from_miss(taken, desired, candidate, 1);
        }
    }
}

/// Numbered candidate names that differ in their number differ: for a file,
/// `{stem}_{j}.{ext}` and `{stem}_{k}.{ext}`; for a folder, `{name}_{j}` and
/// `{name}_{k}`.
pub proof fn lemma_numbered_names_distinct(prefix: Seq<char>, suffix: Seq<char>, j: nat, k: nat)
    requires
        j != k,
    ensures
        prefix + "_"@ + decimal(j) + suffix != prefix + "_"@ + decimal(k) + suffix,
{
    let head = prefix + "_"@;
    let a = head + decimal(j) + suffix;
    let b = head + decimal(k) + suffix;
    if a == b {
        assert(a.subrange(head.len() as int, a.len() - suffix.len()) =~= decimal(j));
        assert(b.subrange(head.len() as int, b.len() - suffix.len()) =~= decimal(k));
        lemma_decimal_injective(j, k);
    }
}

/// The search never chooses a taken path where a free one exists: where
/// `is_taken` answers whether a path is in `taken`, and the desired path or some
/// numbered candidate up to `MAX_SUFFIX` is free, the chosen path is free.
pub proof fn lemma_unique_choice_is_free<F: Fn(&String) -> bool>(
    is_taken: F,
    taken: Set<Seq<char>>,
    desired: Seq<char>,
    candidate: spec_fn(nat) -> Seq<char>,
    chosen: Seq<char>,
)
    requires
        forall|s: &String, b: bool| #[trigger] call_ensures(is_taken, (s,), b) ==> b == taken.contains(s@),
        unique_choice(is_taken, desired, candidate, chosen),
        !taken.contains(desired) || exists|k: nat|
            #![trigger candidate(k)]
            1 <= k <= MAX_SUFFIX && !taken.contains(candidate(k)),
    ensures
        !taken.contains(chosen),
{
    if saw(is_taken, desired, false) && chosen == desired {
        let s = choose|s: &String| s@ == desired && #[trigger] call_ensures(is_taken, (s,), false);
    } else if exists|k: nat|
        #![trigger candidate(k)]
        1 <= k <= MAX_SUFFIX && chosen == candidate(k) && saw(is_taken, candidate(k), false) && (
        forall|j: nat| #![trigger candidate(j)] 1 <= j < k ==> saw(is_taken, candidate(j), true))
    {
        let k = choose|k: nat|
            #![trigger candidate(k)]
            1 <= k <= MAX_SUFFIX && chosen == candidate(k) && saw(is_taken, candidate(k), false) && (
            forall|j: nat| #![trigger candidate(j)] 1 <= j < k ==> saw(is_taken, candidate(j), true));
        let t = choose|t: &String| t@ == candidate(k) && #[trigger] call_ensures(is_taken, (t,), false);
    } else {
        let s = choose|s: &String| s@ == desired && #[trigger] call_ensures(is_taken, (s,), true);
        assert(taken.contains(desired));
        let k = choose|k: nat| #![trigger candidate(k)] 1 <= k <= MAX_SUFFIX && !taken.contains(candidate(k));
        assert(saw(is_taken, candidate(k), true));
        let u = choose|u: &String| u@ == candidate(k) && #[trigger] call_ensures(is_taken, (u,), true);
    }
}

proof fn lemma_choice_is_free_whenever_possible<F: Fn(&String) -> bool>(
    is_taken: F,
    desired: Seq<char>,
    candidate: spec_fn(nat) -> Seq<char>,
    chosen: Seq<char>,
)
    requires
        unique_choice(is_taken, desired, candidate, chosen),
    ensures
        free_whenever_possible(is_taken, desired, candidate, chosen),
{
    assert forall|taken: Set<Seq<char>>|
        #![trigger taken.contains(chosen)]
        (forall|s: &String, b: bool| #[trigger] call_ensures(is_taken, (s,), b) ==> b == taken.contains(s@))
            && (!taken.contains(desired) || exists|k: nat|
            #![trigger candidate(k)]
            1 <= k <= MAX_SUFFIX && !taken.contains(candidate(k))) implies !taken.contains(chosen) by {
        lemma_unique_choice_is_free(is_taken, taken, desired, candidate, chosen);
    }
}

/// A numbered candidate for an output file keeps the whole stem and the
/// extension of the desired path: split as a file name, the `k`-th candidate
/// name has the stem `{stem}_{k}` (with the desired path's complete stem, dots
/// and all) and the desired path's extension.
pub proof fn lemma_numbered_name_keeps_stem_and_extension(path: Seq<char>, k: nat)
    requires
        path_file_name(path) is Some,
        path_file_name(path).unwrap() != seq!['.', '.'],
    ensures
        split_name(numbered_file_name(path, k)) == (
            file_stem_spec(path).unwrap() + "_"@ + decimal(k),
            extension_spec(path),
        ),
{
    reveal_strlit("_");
    reveal_strlit(".");
    let n = path_file_name(path).unwrap();
    let stem = file_stem_spec(path).unwrap();
    let numbered = stem + "_"@ + decimal(k);
    let name = numbered_file_name(path, k);
    lemma_decimal_has_no_dot(k);
    lemma_last_dot(n);
    let tail = "_"@ + decimal(k);
    assert(!tail.contains('.')) by {
        if tail.contains('.') {
            let i = choose|i: int| 0 <= i < tail.len() && tail[i] == '.';
            assert(i > 0);
            assert(decimal(k)[i - 1] == '.');
        }
    }
    assert(numbered =~= stem + tail);
    if extension_spec(path) is None {
        assert(stem == n);
        assert(name =~= n + tail);
        lemma_last_dot_past_suffix(n, tail);
        assert(name[n.len() as int] == '_');
        assert(!(name =~= seq!['.', '.'])) by {
            if name =~= seq!['.', '.'] {
                assert(name[n.len() as int] == '.');
            }
        }
    } else {
        let i = last_dot(n).unwrap();
        let e = extension_spec(path).unwrap();
        assert(stem =~= n.take(i));
        assert(e =~= n.skip(i + 1));
        assert(!e.contains('.')) by {
            if e.contains('.') {
                let j = choose|j: int| 0 <= j < e.len() && e[j] == '.';
                assert(n[i + 1 + j] == '.');
            }
        }
        let with_dot = numbered + "."@;
        assert(name =~= with_dot + e);
        lemma_last_dot_past_suffix(with_dot, e);
        assert(with_dot.last() == '.');
        assert(last_dot(with_dot) == Some(numbered.len() as int));
        assert(name.len() >= 4);
        assert(!(name =~= seq!['.', '.']));
        assert(name.take(numbered.len() as int) =~= numbered);
        assert(name.skip(numbered.len() as int + 1) =~= e);
    }
}

/// A numbered candidate for an output folder sits beside the folder and is
/// named after the folder's whole final component (dots and all) followed by
/// `_{k}`.
pub proof fn lemma_numbered_folder_keeps_whole_name(path: Seq<char>, k: nat)
    requires
        path_file_name(path) is Some,
    ensures
        numbered_folder_path(path, k) == path_join(
            parent_or_empty(path),
            path_file_name(path).unwrap() + "_"@ + decimal(k),
        ),
{
}

} // verus!
