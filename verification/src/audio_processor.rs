//! Decisions of batch processing: how inputs are grouped, where a dropped
//! folder's output goes, how many files run at once, and what each file's
//! record says. Running FFmpeg and waiting for it happen in the caller.

use vstd::prelude::*;
use crate::error::{error_text, CortinizerError, ProcessResult};
use crate::file_handler::InputItem;
use crate::paths::{file_name, join_paths, path_file_name, path_join};

verus! {

/// Calls `num_cpus::get`, the number of CPUs available to the process. Its
/// value depends on the machine; the contract claims only what the crate
/// documents of every outcome, that it is at least one.
#[verifier::external_body]
fn available_cpus() -> (n: usize)
    ensures
        n >= 1,
{
    num_cpus::get()
}

/// The paths of the input items of one kind, in order.
pub open spec fn paths_of_kind(items: Seq<InputItem>, folders: bool) -> Seq<String>
    decreases items.len(),
{
    if items.len() == 0 {
        Seq::empty()
    } else {
        let rest = paths_of_kind(items.drop_last(), folders);
        match items.last() {
            InputItem::AudioFile(p) => if folders {
                rest
            } else {
                rest.push(p)
            },
            InputItem::Folder(p) => if folders {
                rest.push(p)
            } else {
                rest
            },
        }
    }
}

/// Separate the input items into the paths of individual files and of
/// folders, each in the order given.
pub fn partition_inputs(items: Vec<InputItem>) -> (parts: (Vec<String>, Vec<String>))
    ensures
        parts.0@ == paths_of_kind(items@, false),
        parts.1@ == paths_of_kind(items@, true),
{
    let mut files: Vec<String> = Vec::new();
    let mut folders: Vec<String> = Vec::new();
    let mut i: usize = 0;
    while i < items.len()
        invariant
            i <= items@.len(),
            files@ == paths_of_kind(items@.take(i as int), false),
            folders@ == paths_of_kind(items@.take(i as int), true),
        decreases items@.len() - i,
    {
        proof {
            assert(items@.take(i + 1).drop_last() =~= items@.take(i as int));
            assert(items@.take(i + 1).last() == items@[i as int]);
        }
        match &items[i] {
            InputItem::AudioFile(path) => files.push(path.clone()),
            InputItem::Folder(path) => folders.push(path.clone()),
        }
        i = i + 1;
    }
    proof {
        assert(items@.take(items@.len() as int) =~= items@);
    }
    (files, folders)
}

/// Partitioning keeps every input item: each lands in exactly one of the two
/// lists, so their lengths add up to the number of items.
pub proof fn lemma_partition_keeps_every_item(items: Seq<InputItem>)
    ensures
        paths_of_kind(items, false).len() + paths_of_kind(items, true).len() == items.len(),
    decreases items.len(),
{
    if items.len() > 0 {
        lemma_partition_keeps_every_item(items.drop_last());
    }
}

/// How many of `count` jobs run at once with `cpus` CPUs: one per CPU, and no
/// more than there are jobs.
pub open spec fn parallel_limit(cpus: nat, count: nat) -> nat {
    if cpus < count {
        cpus
    } else {
        count
    }
}

/// How many of `count` jobs run at once with `cpus` CPUs.
pub fn parallel_limit_for(cpus: usize, count: usize) -> (limit: usize)
    ensures
        limit == parallel_limit(cpus as nat, count as nat),
{
    if cpus < count {
        cpus
    } else {
        count
    }
}

/// How many of `count` jobs run at once on this machine: the smaller of the
/// number of available CPUs and `count`. The number of CPUs depends on the
/// machine; at least one runs where there is a job.
pub fn max_parallel(count: usize) -> (limit: usize)
    ensures
        limit <= count,
        count >= 1 ==> limit >= 1,
        exists|cpus: nat| cpus >= 1 && limit == parallel_limit(cpus, count as nat),
{
    let cpus = available_cpus();
    parallel_limit_for(cpus, count)
}

/// The output base of a dropped folder: its name, or `unknown` where it has
/// none, inside the program directory.
pub open spec fn folder_output_base(program_dir: Seq<char>, folder_path: Seq<char>) -> Seq<char> {
    let name = match path_file_name(folder_path) {
        Some(n) => n,
        None => "unknown"@,
    };
    path_join(program_dir, name)
}

/// A dropped folder's output base carries the folder's whole final component
/// as its name (dots and all), inside the program directory; only a folder
/// path without a final component gives `unknown`.
pub proof fn lemma_folder_output_keeps_whole_name(program_dir: Seq<char>, folder_path: Seq<char>)
    ensures
        path_file_name(folder_path) is Some ==> folder_output_base(program_dir, folder_path)
            == path_join(program_dir, path_file_name(folder_path).unwrap()),
        path_file_name(folder_path) is None ==> folder_output_base(program_dir, folder_path)
            == path_join(program_dir, "unknown"@),
{
}

/// The output base of a dropped folder, before collision handling.
pub fn folder_output_path(program_dir: &str, folder_path: &str) -> (base: String)
    ensures
        base@ == folder_output_base(program_dir@, folder_path@),
        path_file_name(folder_path@) is Some ==> base@ == path_join(
            program_dir@,
            path_file_name(folder_path@).unwrap(),
        ),
        path_file_name(folder_path@) is None ==> base@ == path_join(program_dir@, "unknown"@),
{
    let name = match file_name(folder_path) {
        Some(n) => n,
        None => String::from_str("unknown"),
    };
    join_paths(program_dir, name.as_str())
}

/// The step of a file's processing at which it failed.
#[derive(Debug, Clone, Copy, PartialEq, Eq)]
pub enum FailedStep {
    /// The output path could not be worked out.
    OutputPath,
    /// The output directory could not be created.
    OutputDirectory,
    /// FFmpeg did not produce the cortina.
    Generation,
    /// The audio files of a folder could not be listed.
    Discovery,
}

/// The text that introduces the failure of a step.
pub open spec fn step_prefix(step: FailedStep) -> Seq<char> {
    match step {
        FailedStep::OutputPath => "Failed to calculate output path: "@,
        FailedStep::OutputDirectory => "Failed to create output directory: "@,
        FailedStep::Generation => "Failed: "@,
        FailedStep::Discovery => "Failed to discover audio files: "@,
    }
}

/// The record of an input that failed at `step` with `error`.
pub fn failure_result(input_path: String, step: FailedStep, error: &CortinizerError) -> (r:
    ProcessResult)
    ensures
        r.input_path == input_path,
        r.output_path is None,
        r.failed_with(step_prefix(step) + error_text(*error)),
        !r.succeeded(),
{
    let mut message = String::from_str(
        match step {
            FailedStep::OutputPath => "Failed to calculate output path: ",
            FailedStep::OutputDirectory => "Failed to create output directory: ",
            FailedStep::Generation => "Failed: ",
            FailedStep::Discovery => "Failed to discover audio files: ",
        },
    );
    let detail = error.to_display_string();
    message.append(detail.as_str());
    ProcessResult::failed(input_path, message)
}

/// The record of a file once FFmpeg has run: a success with the output path,
/// or a failure of the generation step.
pub fn generation_result(
    input_path: String,
    output_path: String,
    outcome: Result<(), CortinizerError>,
) -> (r: ProcessResult)
    ensures
        r.input_path == input_path,
        outcome is Ok ==> r.output_path == Some(output_path) && r.succeeded(),
        outcome matches Err(e) ==> r.output_path is None && r.failed_with(
            step_prefix(FailedStep::Generation) + error_text(e),
        ),
{
    match outcome {
        Ok(()) => ProcessResult::success(input_path, output_path),
        Err(e) => failure_result(input_path, FailedStep::Generation, &e),
    }
}

} // verus!
