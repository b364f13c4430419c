//! A batch of pending changes, applied strictly in the order of submission.
//!
//! The batch hands out one statement at a time. Whoever holds the
//! connection runs it and resumes the batch with the reply, until the batch
//! is finished and gives one result for each change.

use vstd::prelude::*;
use crate::json::{Json, JsonV};
use crate::sql::{Statement, StatementV};
use crate::writes::{
    Phase, Reply, ReplyV, Step, StepV, WriteChange, WriteChangeV, WriteResult, WriteResultV,
    begin_write, continue_write, first_step, next_step,
};

verus! {

/// The contents of a list of changes.
pub open spec fn change_views(changes: Seq<WriteChange>) -> Seq<WriteChangeV> {
    Seq::new(changes.len(), |i: int| changes[i]@)
}

/// The contents of a list of results.
pub open spec fn result_views(results: Seq<WriteResult>) -> Seq<WriteResultV> {
    Seq::new(results.len(), |i: int| results[i]@)
}

/// The content of an outcome.
pub open spec fn outcome_view(outcome: Result<Json, String>) -> Result<JsonV, Seq<char>> {
    match outcome {
        Ok(data) => Ok(data@),
        Err(error) => Err(error@),
    }
}

/// The result that reports `outcome` for the change `id`.
pub open spec fn result_of(id: Seq<char>, outcome: Result<JsonV, Seq<char>>) -> WriteResultV {
    match outcome {
        Ok(data) => WriteResultV { id, success: true, data: Some(data), error: None },
        Err(error) => WriteResultV { id, success: false, data: None, error: Some(error) },
    }
}

/// The result that reports `outcome` for the change `id`.
pub fn write_result(id: String, outcome: Result<Json, String>) -> (r: WriteResult)
    ensures
        r@ == result_of(id@, outcome_view(outcome)),
{
    match outcome {
        Ok(data) => WriteResult { id, success: true, data: Some(data), error: None },
        Err(error) => WriteResult { id, success: false, data: None, error: Some(error) },
    }
}

/// Whether `results` are results for the first changes, in order: each
/// echoes the `id` of its change and holds either a row or an error.
pub open spec fn echoes(changes: Seq<WriteChangeV>, results: Seq<WriteResultV>) -> bool {
    &&& results.len() <= changes.len()
    &&& forall|i: int|
        0 <= i < results.len() ==> {
            &&& (#[trigger] results[i]).id == changes[i].id
            &&& results[i].success == (results[i].data is Some)
            &&& results[i].success == (results[i].error is None)
        }
}

/// A batch that waits for the reply to a statement.
#[derive(Debug)]
pub struct Batch {
    changes: Vec<WriteChange>,
    results: Vec<WriteResult>,
    phase: Phase,
}

/// The mathematical content of a [`Batch`].
pub struct BatchV {
    /// All changes of the batch.
    pub changes: Seq<WriteChangeV>,
    /// The results of the changes that are settled.
    pub results: Seq<WriteResultV>,
    /// The statement under way for the first change that is not settled.
    pub phase: Phase,
}

impl View for Batch {
    type V = BatchV;

    closed spec fn view(&self) -> BatchV {
        BatchV {
            changes: change_views(self.changes@),
            results: result_views(self.results@),
            phase: self.phase,
        }
    }
}

impl Batch {
    #[verifier::type_invariant]
    spec fn settled_so_far(self) -> bool {
        &&& self.results@.len() < self.changes@.len()
        &&& echoes(change_views(self.changes@), result_views(self.results@))
    }
}

/// How far a batch has come.
#[derive(Debug)]
pub enum Progress {
    /// Run the statement and resume the batch with the reply.
    Send(Statement, Batch),
    /// Every change is settled: one result for each, in order.
    Finished(Vec<WriteResult>),
}

/// The mathematical content of a [`Progress`].
pub enum ProgressV {
    Send(StatementV, BatchV),
    Finished(Seq<WriteResultV>),
}

impl View for Progress {
    type V = ProgressV;

    open spec fn view(&self) -> ProgressV {
        match self {
            Progress::Send(statement, batch) => ProgressV::Send(statement@, batch@),
            Progress::Finished(results) => ProgressV::Finished(result_views(results@)),
        }
    }
}

/// Where a batch gets from `results` on: changes that settle without a
/// statement are settled in turn, up to the first statement or the end.
pub open spec fn run_from(changes: Seq<WriteChangeV>, results: Seq<WriteResultV>) -> ProgressV
    decreases changes.len() - results.len(),
{
    if results.len() >= changes.len() {
        ProgressV::Finished(results)
    } else {
        let change = changes[results.len() as int];
        match first_step(change) {
            StepV::Send(statement, phase) => ProgressV::Send(
                statement,
                BatchV { changes, results, phase },
            ),
            StepV::Done(outcome) => run_from(changes, results.push(result_of(change.id, outcome))),
        }
    }
}

/// Where a waiting batch gets with `reply`.
pub open spec fn after_reply(batch: BatchV, reply: ReplyV) -> ProgressV {
    let change = batch.changes[batch.results.len() as int];
    match next_step(change.table, change.payload, batch.phase, reply) {
        StepV::Send(statement, phase) => ProgressV::Send(
            statement,
            BatchV { changes: batch.changes, results: batch.results, phase },
        ),
        StepV::Done(outcome) => run_from(
            batch.changes,
            batch.results.push(result_of(change.id, outcome)),
        ),
    }
}

/// Whether `progress` is one of the batch `changes`: the same changes while
/// it waits, one result for each change, in order, once it is finished.
pub open spec fn progress_of(changes: Seq<WriteChangeV>, progress: ProgressV) -> bool {
    match progress {
        ProgressV::Send(_, batch) => batch.changes == changes && batch.results.len()
            < changes.len() && echoes(changes, batch.results),
        ProgressV::Finished(results) => results.len() == changes.len() && echoes(changes, results),
    }
}

/// A batch that runs on from results for its first changes stays a batch
/// of the same changes, and ends with one result for each.
pub proof fn lemma_run_from(changes: Seq<WriteChangeV>, results: Seq<WriteResultV>)
    requires
        echoes(changes, results),
    ensures
        progress_of(changes, run_from(changes, results)),
    decreases changes.len() - results.len(),
{
    if results.len() < changes.len() {
        let change = changes[results.len() as int];
        match first_step(change) {
            StepV::Send(_, _) => {},
            StepV::Done(outcome) => {
                lemma_run_from(changes, results.push(result_of(change.id, outcome)));
            },
        }
    }
}

/// A waiting batch that gets a reply stays a batch of the same changes.
pub proof fn lemma_after_reply(batch: BatchV, reply: ReplyV)
    requires
        batch.results.len() < batch.changes.len(),
        echoes(batch.changes, batch.results),
    ensures
        progress_of(batch.changes, after_reply(batch, reply)),
{
    let change = batch.changes[batch.results.len() as int];
    match next_step(change.table, change.payload, batch.phase, reply) {
        StepV::Send(_, _) => {},
        StepV::Done(outcome) => {
            lemma_run_from(batch.changes, batch.results.push(result_of(change.id, outcome)));
        },
    }
}

/// Settles changes from `results` on, up to the first statement or the end.
fn run(changes: Vec<WriteChange>, settled: Vec<WriteResult>) -> (r: Progress)
    requires
        echoes(change_views(changes@), result_views(settled@)),
    ensures
        r@ == run_from(change_views(changes@), result_views(settled@)),
{
    let ghost start = result_views(settled@);
    let mut results = settled;
    let ghost all = change_views(changes@);
    while results.len() < changes.len()
        invariant
            all == change_views(changes@),
            start == result_views(settled@),
            echoes(all, result_views(results@)),
            run_from(all, result_views(results@)) == run_from(all, start),
        decreases changes.len() - results.len(),
    {
        let ghost before = result_views(results@);
        let change = &changes[results.len()];
        assert(change@ == all[before.len() as int]);
        match begin_write(change) {
            Step::Send(statement, phase) => {
                let batch = Batch { changes, results, phase };
                return Progress::Send(statement, batch);
            },
            Step::Done(outcome) => {
                let ghost outcome_v = outcome_view(outcome);
                let result = write_result(change.id.clone(), outcome);
                results.push(result);
                assert(result_views(results@) =~= before.push(
                    result_of(all[before.len() as int].id, outcome_v),
                ));
            },
        }
    }
    Progress::Finished(results)
}

/// Starts applying a batch of changes. Each change is settled before the
/// next one starts, and no change is skipped: the batch ends with one
/// result for each change, in the order of submission, whatever fails on
/// the way.
pub fn flush_writes(changes: Vec<WriteChange>) -> (r: Progress)
    ensures
        r@ == run_from(change_views(changes@), Seq::empty()),
        progress_of(change_views(changes@), r@),
{
    let results: Vec<WriteResult> = Vec::new();
    assert(result_views(results@) =~= Seq::empty());
    proof {
        lemma_run_from(change_views(changes@), Seq::empty());
    }
    run(changes, results)
}

impl Batch {
    /// Takes the reply to the statement that the batch waits for, and runs
    /// the batch on to its next statement or to its end.
    pub fn resume(self, reply: &Reply) -> (r: Progress)
        ensures
            r@ == after_reply(self@, reply@),
            progress_of(self@.changes, r@),
    {
        proof {
            use_type_invariant(&self);
            lemma_after_reply(self@, reply@);
        }
        let Batch { changes, results, phase } = self;
        let ghost before = result_views(results@);
        let change = &changes[results.len()];
        assert(change@ == change_views(changes@)[before.len() as int]);
        match continue_write(change, phase, reply) {
            Step::Send(statement, next) => {
                let batch = Batch { changes, results, phase: next };
                Progress::Send(statement, batch)
            },
            Step::Done(outcome) => {
                let ghost outcome_v = outcome_view(outcome);
                let result = write_result(change.id.clone(), outcome);
                let mut results = results;
                results.push(result);
                assert(result_views(results@) =~= before.push(
                    result_of(change_views(changes@)[before.len() as int].id, outcome_v),
                ));
                run(changes, results)
            },
        }
    }
}

} // verus!
