//! From one file to a batch: the choice of a pipeline by category, and the
//! status of a whole run.

use vstd::prelude::*;
use crate::artifact::{follows, PipelineRun, Plan, RunView, Step};
use crate::classify::{classified, classify, FileCategory};
use crate::config::{Config, ConfigView};
use crate::generic::{generic_compress, generic_plan};
use crate::transcode::{image_compress, image_run};

verus! {

/// Whether `run` is a run on the file `item` with the bytes `content`: that
/// of the image pipeline for an image, that of the generic pipeline for a
/// generic file, an empty one for a compressed sibling, and for a file
/// without an extension one that ends at once in that error.
pub open spec fn entry_run(run: RunView, c: ConfigView, item: Seq<u8>, content: Seq<u8>) -> bool {
    match classified(item) {
        Ok(FileCategory::Image) => image_run(run, c, item, content),
        Ok(FileCategory::Generic) => follows(run, generic_plan(c, item, content)),
        Ok(FileCategory::AlreadyCompressed) => follows(
            run,
            Plan { steps: Seq::<Step>::empty(), stop: None },
        ),
        Err(fault) => follows(run, Plan { steps: Seq::<Step>::empty(), stop: Some(fault) }),
    }
}

/// Runs the pipeline that the extension of `item_path` asks for.
pub fn process_entry(config: &Config, item_path: &[u8], content: &[u8]) -> (run: PipelineRun)
    ensures
        run@.source == item_path@,
        entry_run(run@, config@, item_path@, content@),
{
    match classify(item_path) {
        Ok(FileCategory::Image) => image_compress(config, item_path, content),
        Ok(FileCategory::Generic) => generic_compress(config, item_path, content),
        Ok(FileCategory::AlreadyCompressed) => PipelineRun::new(item_path),
        Err(e) => {
            let mut run = PipelineRun::new(item_path);
            run.fail(e);
            run
        },
    }
}

/// Whether any file of a run has failed.
#[derive(Debug, Clone, Copy, PartialEq, Eq, Structural)]
pub struct AggregateStatus {
    pub failed: bool,
}

/// The status after the outcomes `succeeded`, one per file: failed exactly
/// when one of them is a failure.
pub open spec fn status_of(succeeded: Seq<bool>) -> AggregateStatus {
    AggregateStatus { failed: succeeded.contains(false) }
}

impl AggregateStatus {
    /// The status of a run in which nothing has failed.
    pub fn new() -> (r: AggregateStatus)
        ensures
            r == status_of(Seq::<bool>::empty()),
    {
        AggregateStatus { failed: false }
    }

    /// The status with one more outcome taken in.
    pub open spec fn with_outcome(self, succeeded: bool) -> AggregateStatus {
        AggregateStatus { failed: self.failed || !succeeded }
    }

    /// Takes in the outcome of one file.
    pub fn record(self, succeeded: bool) -> (r: AggregateStatus)
        ensures
            r == self.with_outcome(succeeded),
    {
        AggregateStatus { failed: self.failed || !succeeded }
    }

    /// The status of two parts of a run taken together.
    pub open spec fn merged(self, other: AggregateStatus) -> AggregateStatus {
        AggregateStatus { failed: self.failed || other.failed }
    }

    /// Joins the status of two parts of a run.
    pub fn merge(self, other: AggregateStatus) -> (r: AggregateStatus)
        ensures
            r == self.merged(other),
    {
        AggregateStatus { failed: self.failed || other.failed }
    }

    /// Whether the process is to report success.
    pub fn exit_success(&self) -> (r: bool)
        ensures
            r == !self.failed,
    {
        !self.failed
    }
}

/// The status of a run does not depend on how the files are split among
/// workers, nor on the order in which their outcomes come in: the status of
/// two parts taken together is the status of all their outcomes in a row,
/// whichever part comes first.
pub proof fn law_status_of_parts(a: Seq<bool>, b: Seq<bool>)
    ensures
        status_of(a + b) == status_of(a).merged(status_of(b)),
        status_of(a).merged(status_of(b)) == status_of(b).merged(status_of(a)),
        status_of(a.push(true)) == status_of(a),
        status_of(a.push(false)).failed,
        forall|s: AggregateStatus, ok: bool|
            #[trigger] s.with_outcome(ok) == s.merged(status_of(seq![ok])),
{
    let whole = a + b;
    if a.contains(false) {
        let i = choose|i: int| 0 <= i < a.len() && a[i] == false;
        assert(whole[i] == false);
    }
    if b.contains(false) {
        let i = choose|i: int| 0 <= i < b.len() && b[i] == false;
        assert(whole[a.len() + i] == false);
    }
    if whole.contains(false) {
        let i = choose|i: int| 0 <= i < whole.len() && whole[i] == false;
        if i < a.len() {
            assert(a[i] == false);
        } else {
            assert(b[i - a.len()] == false);
        }
    }
    let grown = a.push(true);
    if grown.contains(false) {
        let i = choose|i: int| 0 <= i < grown.len() && grown[i] == false;
        assert(a[i] == false);
    }
    if a.contains(false) {
        let i = choose|i: int| 0 <= i < a.len() && a[i] == false;
        assert(grown[i] == false);
    }
    assert(a.push(false)[a.len() as int] == false);
    assert forall|s: AggregateStatus, ok: bool|
        #[trigger] s.with_outcome(ok) == s.merged(status_of(seq![ok])) by {
        let one = seq![ok];
        if !ok {
            assert(one[0] == false);
        }
    }
}

/// The number of failures among the first `n` outcomes.
pub open spec fn failures_in(succeeded: Seq<bool>, n: nat) -> nat
    decreases n,
{
    if n == 0 {
        0
    } else {
        failures_in(succeeded, (n - 1) as nat) + if succeeded[n - 1] {
            0nat
        } else {
            1nat
        }
    }
}

/// A file to be processed: its path below the input root, root included,
/// and its bytes.
#[derive(Debug, Clone, PartialEq, Eq)]
pub struct SourceFile {
    pub path: Vec<u8>,
    pub content: Vec<u8>,
}

/// What became of a batch: one run for each file, in the order of the files,
/// the number of runs that failed, and the status of the whole.
#[derive(Debug)]
pub struct BatchReport {
    pub runs: Vec<PipelineRun>,
    pub failures: usize,
    pub status: AggregateStatus,
}

/// Whether each run succeeded, in the order of the runs.
pub open spec fn outcomes_of(runs: Seq<PipelineRun>) -> Seq<bool> {
    Seq::new(runs.len(), |i: int| runs[i]@.fault.is_none())
}

/// Processes every file of `files`, each on its own: whatever becomes of one
/// file, every other is run to its end.
pub fn run_batch(config: &Config, files: &Vec<SourceFile>) -> (report: BatchReport)
    ensures
        report.runs@.len() == files@.len(),
        forall|i: int|
            0 <= i < files@.len() ==> entry_run(
                (#[trigger] report.runs@[i])@,
                config@,
                files@[i].path@,
                files@[i].content@,
            ),
        report.failures == failures_in(outcomes_of(report.runs@), files@.len()),
        report.status == status_of(outcomes_of(report.runs@)),
{
    let mut runs: Vec<PipelineRun> = Vec::new();
    let mut failures: usize = 0;
    let mut status = AggregateStatus::new();
    let mut i: usize = 0;
    while i < files.len()
        invariant
            i <= files@.len(),
            runs@.len() == i,
            forall|j: int|
                0 <= j < i ==> entry_run(
                    (#[trigger] runs@[j])@,
                    config@,
                    files@[j].path@,
                    files@[j].content@,
                ),
            failures == failures_in(outcomes_of(runs@), i as nat),
            failures <= i,
            status == status_of(outcomes_of(runs@)),
        decreases files@.len() - i,
    {
        let file = &files[i];
        let run = process_entry(config, file.path.as_slice(), file.content.as_slice());
        let succeeded = run.succeeded();
        let ghost before = runs@;
        runs.push(run);
        proof {
            let old_outcomes = outcomes_of(before);
            let new_outcomes = outcomes_of(runs@);
            assert(new_outcomes =~= old_outcomes.push(succeeded));
            lemma_failures_prefix(old_outcomes, new_outcomes, i as nat);
            assert forall|j: int| 0 <= j < i + 1 implies entry_run(
                (#[trigger] runs@[j])@,
                config@,
                files@[j].path@,
                files@[j].content@,
            ) by {
                if j < i {
                    assert(runs@[j] == before[j]);
                }
            }
            if succeeded {
                assert forall|k: int| 0 <= k < new_outcomes.len() && new_outcomes[k]
                    == false implies old_outcomes.contains(false) by {
                    assert(old_outcomes[k] == false);
                }
            } else {
                assert(new_outcomes[i as int] == false);
            }
            if old_outcomes.contains(false) {
                let k = choose|k: int| 0 <= k < old_outcomes.len() && old_outcomes[k] == false;
                assert(new_outcomes[k] == false);
            }
        }
        if !succeeded {
            failures += 1;
        }
        status = status.record(succeeded);
        i += 1;
    }
    BatchReport { runs, failures, status }
}

/// The failures among the first `n` outcomes depend on those outcomes only.
pub proof fn lemma_failures_prefix(a: Seq<bool>, b: Seq<bool>, n: nat)
    requires
        n <= a.len(),
        n <= b.len(),
        forall|i: int| 0 <= i < n ==> a[i] == b[i],
    ensures
        failures_in(a, n) == failures_in(b, n),
    decreases n,
{
    if n > 0 {
        lemma_failures_prefix(a, b, (n - 1) as nat);
    }
}

} // verus!
