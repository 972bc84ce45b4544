//! The summary printed at the end of a run and the exit code.

use vstd::prelude::*;
use crate::error::{ProcessResult, ProcessStatus};

verus! {

/// The number of successful records.
pub open spec fn success_count(results: Seq<ProcessResult>) -> nat
    decreases results.len(),
{
    if results.len() == 0 {
        0
    } else {
        success_count(results.drop_last()) + if results.last().succeeded() {
            1nat
        } else {
            0nat
        }
    }
}

/// The failed records, in order, as pairs of input path and error message.
pub open spec fn failure_list(results: Seq<ProcessResult>) -> Seq<(String, String)>
    decreases results.len(),
{
    if results.len() == 0 {
        Seq::empty()
    } else {
        let r = results.last();
        failure_list(results.drop_last()) + match r.status {
            ProcessStatus::Failed(m) => seq![(r.input_path, m)],
            ProcessStatus::Success => Seq::empty(),
        }
    }
}

/// The counts of a run and the failures to list.
#[derive(Debug, Clone)]
pub struct Summary {
    /// Number of records
    pub total: usize,
    /// Number of successful records
    pub successes: usize,
    /// Number of failed records
    pub failures: usize,
    /// Input path and error of each failed record, in order
    pub failed: Vec<(String, String)>,
}

proof fn lemma_success_count_bounded(results: Seq<ProcessResult>)
    ensures
        success_count(results) <= results.len(),
    decreases results.len(),
{
    if results.len() > 0 {
        lemma_success_count_bounded(results.drop_last());
    }
}

proof fn lemma_failure_list_len(results: Seq<ProcessResult>)
    ensures
        failure_list(results).len() + success_count(results) == results.len(),
    decreases results.len(),
{
    if results.len() > 0 {
        lemma_failure_list_len(results.drop_last());
    }
}

/// Count the records of a run and list its failures.
pub fn summarize_results(results: &Vec<ProcessResult>) -> (s: Summary)
    ensures
        s.total == results@.len(),
        s.successes == success_count(results@),
        s.failures == s.total - s.successes,
        s.failed@ == failure_list(results@),
{
    let mut successes: usize = 0;
    let mut failed: Vec<(String, String)> = Vec::new();
    let mut i: usize = 0;
    while i < results.len()
        invariant
            i <= results@.len(),
            successes == success_count(results@.take(i as int)),
            failed@ == failure_list(results@.take(i as int)),
        decreases results@.len() - i,
    {
        proof {
            assert(results@.take(i + 1).drop_last() =~= results@.take(i as int));
            assert(results@.take(i + 1).last() == results@[i as int]);
            lemma_success_count_bounded(results@.take(i as int));
        }
        match &results[i].status {
            ProcessStatus::Success => {
                successes = successes + 1;
            },
            ProcessStatus::Failed(m) => {
                failed.push((results[i].input_path.clone(), m.clone()));
            },
        }
        i = i + 1;
    }
    proof {
        assert(results@.take(results@.len() as int) =~= results@);
        lemma_success_count_bounded(results@);
    }
    let total = results.len();
    Summary { total, successes, failures: total - successes, failed }
}

/// The exit code of a run: 1 where any file failed, 0 where all succeeded.
pub fn exit_code(results: &Vec<ProcessResult>) -> (code: i32)
    ensures
        code == 0 || code == 1,
        code == 1 <==> exists|i: int| 0 <= i < results@.len() && !(#[trigger] results@[i]).succeeded(),
{
    let mut i: usize = 0;
    while i < results.len()
        invariant
            i <= results@.len(),
            forall|j: int| 0 <= j < i ==> (#[trigger] results@[j]).succeeded(),
        decreases results@.len() - i,
    {
        if !results[i].is_success() {
            return 1;
        }
        i = i + 1;
    }
    0
}

/// Each record of a run is counted once, as a success or as a failure, and the
/// failures listed are as many as the failed records.
pub proof fn lemma_summary_counts_every_result(results: Seq<ProcessResult>)
    ensures
        success_count(results) <= results.len(),
        failure_list(results).len() == results.len() - success_count(results),
{
    lemma_success_count_bounded(results);
    lemma_failure_list_len(results);
}

/// A run exits with 0 exactly when no record is a failure: when all are
/// counted as successes.
pub proof fn lemma_exit_code_matches_count(results: Seq<ProcessResult>)
    ensures
        (exists|i: int| 0 <= i < results.len() && !(#[trigger] results[i]).succeeded())
            <==> success_count(results) < results.len(),
    decreases results.len(),
{
    lemma_success_count_bounded(results);
    if results.len() > 0 {
        let prefix = results.drop_last();
        lemma_exit_code_matches_count(prefix);
        lemma_success_count_bounded(prefix);
        if exists|i: int| 0 <= i < prefix.len() && !(#[trigger] prefix[i]).succeeded() {
            let i = choose|i: int| 0 <= i < prefix.len() && !(#[trigger] prefix[i]).succeeded();
            assert(!results[i].succeeded());
        }
        if exists|i: int| 0 <= i < results.len() && !(#[trigger] results[i]).succeeded() {
            let i = choose|i: int| 0 <= i < results.len() && !(#[trigger] results[i]).succeeded();
            if i < results.len() - 1 {
                assert(!prefix[i].succeeded());
            }
        }
    }
}

} // verus!
