//! Running a batch, one decision at a time. The executor that runs a simple
//! instruction, runs a nested batch or undoes a result does outside work; the
//! decisions between those calls are taken here: which instruction runs next,
//! what a failure does (an atomic batch undoes what it ran, last first, then
//! fails; a non-atomic one notes the failure and goes on), how nested results
//! are merged, and what the finished batch reports.

use vstd::prelude::*;
use crate::batch::{
    BatchError, BatchExecuteRequest, BatchExecuteResult, BatchExecutor, BatchInstruction, BatchStatus,
    BatchValidationError, ExecutionResult, NestedBatchResult, batch_status, instruction_count, validation_outcome,
};
use crate::error::EngineError;
use crate::text::{cat, owned};

verus! {

/// What the caller is asked to do next.
#[derive(Debug, Clone, Copy, PartialEq, Eq, Structural)]
pub enum BatchAction {
    /// Run the simple instruction at this index and report its outcome.
    Execute(usize),
    /// Run the nested batch at this index and report its outcome.
    Descend(usize),
    /// Undo the result at this index and report whether that worked.
    Rollback(usize),
    /// Nothing to run: call the step again.
    Continue,
    /// Every instruction has been dealt with.
    Done,
}

/// What the caller reports back.
pub enum BatchEvent {
    /// No outcome to report.
    Proceed,
    /// The outcome of a simple instruction.
    Executed(Result<ExecutionResult, EngineError>),
    /// The outcome of a nested batch.
    NestedDone(Result<NestedBatchResult, BatchError>),
    /// The outcome of undoing a result.
    RolledBack(Result<(), EngineError>),
}

/// A batch under way.
pub struct BatchRun {
    /// The index of the instruction being dealt with.
    pub next: usize,
    /// Whether the instruction at `next` has been handed out and its outcome
    /// is awaited.
    pub awaiting: bool,
    /// The results so far, nested results merged in.
    pub results: Vec<ExecutionResult>,
    /// The results of the nested batches run so far.
    pub nested_results: Vec<NestedBatchResult>,
    pub has_failure: bool,
    pub max_depth_reached: u32,
    /// While undoing: how many results are still to be undone, the one at
    /// `k - 1` being undone now.
    pub undo: Option<usize>,
    /// The error the batch fails with once undone.
    pub pending: Option<BatchError>,
    /// The batch has failed; it takes no more steps.
    pub stopped: bool,
}

/// A result as plain values.
pub open spec fn result_view(r: ExecutionResult) -> (Seq<char>, bool, Seq<char>) {
    (r.execution_id@, r.success, r.output@)
}

pub open spec fn results_view(rs: Seq<ExecutionResult>) -> Seq<(Seq<char>, bool, Seq<char>)> {
    rs.map_values(|r: ExecutionResult| result_view(r))
}

/// The result recorded for a simple instruction that failed in a non-atomic
/// batch: its id, not successful, no output.
pub open spec fn failed_view(id: Seq<char>) -> (Seq<char>, bool, Seq<char>) {
    (id, false, Seq::empty())
}

/// The message of an atomic batch whose nested batch failed.
pub open spec fn nested_failed_text(id: Seq<char>) -> Seq<char> {
    "Nested batch "@ + id + " failed"@
}

impl BatchRun {
    pub open spec fn wf(&self, req: BatchExecuteRequest) -> bool {
        &&& self.next <= req.instructions@.len()
        &&& self.awaiting ==> self.next < req.instructions@.len() && self.undo is None && !self.stopped
        &&& self.undo matches Some(k) ==> 1 <= k <= self.results@.len() && self.pending is Some && !self.stopped
    }

    /// The run has not moved on from `old`.
    pub open spec fn same_progress(&self, old: BatchRun) -> bool {
        &&& self.next == old.next
        &&& self.awaiting == old.awaiting
        &&& results_view(self.results@) == results_view(old.results@)
        &&& self.nested_results@.len() == old.nested_results@.len()
        &&& self.has_failure == old.has_failure
        &&& self.max_depth_reached == old.max_depth_reached
        &&& self.undo == old.undo
        &&& self.stopped == old.stopped
    }
}

/// What refusing with `err` does once the failure is noted: with nothing to
/// undo, the batch fails at once with `err`; otherwise the last result is
/// undone first and `err` waits.
pub open spec fn refused(old: BatchRun, new: BatchRun, r: Result<BatchAction, BatchError>, err: BatchError) -> bool {
    &&& !new.awaiting
    &&& results_view(new.results@) == results_view(old.results@)
    &&& new.has_failure
    &&& new.next == old.next
    &&& (old.results@.len() == 0 ==> r == Err::<BatchAction, BatchError>(err) && new.stopped && new.undo is None)
    &&& (old.results@.len() > 0 ==> r == Ok::<BatchAction, BatchError>(BatchAction::Rollback((old.results@.len() - 1) as usize))
        && new.undo == Some(old.results@.len() as usize) && new.pending == Some(err) && !new.stopped)
}

/// The instruction at `next` is settled and the run moves on to the next one.
pub open spec fn moved_on(old: BatchRun, new: BatchRun, r: Result<BatchAction, BatchError>) -> bool {
    &&& r == Ok::<BatchAction, BatchError>(BatchAction::Continue)
    &&& new.next == old.next + 1
    &&& !new.awaiting
    &&& new.undo is None
    &&& !new.stopped
}

/// Starts a batch: the request is validated first, and a run starts at its
/// first instruction at the request's depth.
pub fn batch_start(req: &BatchExecuteRequest) -> (r: Result<BatchRun, BatchError>)
    ensures
        match validation_outcome(*req) {
            Err(e) => r matches Err(BatchError::Validation(e2)) && e2 == e,
            Ok(_) => r matches Ok(run) && run.wf(*req) && run.next == 0 && !run.awaiting && run.results@.len() == 0
                && run.nested_results@.len() == 0 && !run.has_failure && run.max_depth_reached == req.current_depth
                && run.undo is None && !run.stopped,
        },
{
    match req.validate() {
        Err(e) => Err(BatchError::Validation(e)),
        Ok(()) => Ok(
            BatchRun {
                next: 0,
                awaiting: false,
                results: Vec::new(),
                nested_results: Vec::new(),
                has_failure: false,
                max_depth_reached: req.current_depth,
                undo: None,
                pending: None,
                stopped: false,
            },
        ),
    }
}

fn copy_result(r: &ExecutionResult) -> (c: ExecutionResult)
    ensures
        result_view(c) == result_view(*r),
{
    ExecutionResult { execution_id: owned(r.execution_id.as_str()), success: r.success, output: owned(r.output.as_str()) }
}

fn refuse(run: &mut BatchRun, err: BatchError) -> (r: Result<BatchAction, BatchError>)
    requires
        old(run).undo is None,
        !old(run).stopped,
    ensures
        refused(*old(run), *final(run), r, err),
        final(run).results == old(run).results,
        final(run).next == old(run).next,
        final(run).undo matches Some(k) ==> k == old(run).results@.len() && final(run).pending is Some,
        final(run).nested_results == old(run).nested_results,
        final(run).max_depth_reached == old(run).max_depth_reached,
{
    run.has_failure = true;
    run.awaiting = false;
    let n = run.results.len();
    if n == 0 {
        run.stopped = true;
        Err(err)
    } else {
        run.undo = Some(n);
        run.pending = Some(err);
        Ok(BatchAction::Rollback(n - 1))
    }
}

impl BatchExecutor {
    /// Takes one step of `run` on `req`, given the outcome `ev` of the
    /// action handed out before.
    pub fn batch_step(&self, req: &BatchExecuteRequest, run: &mut BatchRun, ev: BatchEvent) -> (r: Result<
        BatchAction,
        BatchError,
    >)
        requires
            old(run).wf(*req),
        ensures
            final(run).wf(*req),
            old(run).stopped ==> r == Ok::<BatchAction, BatchError>(BatchAction::Done) && final(run).same_progress(*old(run)),
            // Undoing: the results are undone last first; the first failure to
            // undo ends the batch, and once all are undone it fails with the
            // error that started the undoing.
            old(run).undo matches Some(k) ==> match ev {
                BatchEvent::RolledBack(Err(e)) => r == Err::<BatchAction, BatchError>(BatchError::RollbackFailed(e))
                    && final(run).stopped && final(run).undo is None,
                BatchEvent::RolledBack(Ok(_)) => if k == 1 {
                    r == Err::<BatchAction, BatchError>(old(run).pending->0) && final(run).stopped && final(run).undo is None
                } else {
                    r == Ok::<BatchAction, BatchError>(BatchAction::Rollback((k - 2) as usize)) && final(run).undo == Some(
                        (k - 1) as usize,
                    ) && final(run).pending == old(run).pending && !final(run).stopped
                },
                _ => r == Ok::<BatchAction, BatchError>(BatchAction::Rollback((k - 1) as usize)) && final(run).same_progress(
                    *old(run),
                ) && final(run).pending == old(run).pending,
            },
            // An awaited outcome is recorded.
            !old(run).stopped && old(run).undo is None && old(run).awaiting ==> {
                let i = old(run).next as int;
                match (req.instructions@[i], ev) {
                    (BatchInstruction::Simple(_), BatchEvent::Executed(Ok(x))) => moved_on(*old(run), *final(run), r)
                        && results_view(final(run).results@) == results_view(old(run).results@).push(result_view(x))
                        && final(run).has_failure == old(run).has_failure,
                    (BatchInstruction::Simple(s), BatchEvent::Executed(Err(e))) => if req.atomic {
                        refused(*old(run), *final(run), r, BatchError::AtomicFailure(e))
                    } else {
                        moved_on(*old(run), *final(run), r) && results_view(final(run).results@) == results_view(
                            old(run).results@,
                        ).push(failed_view(s.execution_id@)) && final(run).has_failure
                    },
                    (BatchInstruction::Nested(n), BatchEvent::NestedDone(Ok(nr))) => if nr.status == BatchStatus::Failed
                        && req.atomic {
                        exists|m: String|
                            m@ == nested_failed_text(n.nested_batch_id@) && #[trigger] refused(
                                *old(run),
                                *final(run),
                                r,
                                BatchError::NestedExecutionFailed(m),
                            )
                    } else {
                        &&& moved_on(*old(run), *final(run), r)
                        &&& results_view(final(run).results@) == results_view(old(run).results@) + results_view(nr.results@)
                        &&& final(run).nested_results@.len() == old(run).nested_results@.len() + 1
                        &&& final(run).nested_results@.last() == nr
                        &&& final(run).has_failure == (old(run).has_failure || nr.status == BatchStatus::Failed)
                    },
                    (BatchInstruction::Nested(_), BatchEvent::NestedDone(Err(e))) => if req.atomic {
                        refused(*old(run), *final(run), r, e)
                    } else {
                        moved_on(*old(run), *final(run), r) && results_view(final(run).results@) == results_view(
                            old(run).results@,
                        ) && final(run).has_failure
                    },
                    (BatchInstruction::Simple(_), _) => r == Ok::<BatchAction, BatchError>(BatchAction::Execute(old(run).next))
                        && final(run).same_progress(*old(run)),
                    (BatchInstruction::Nested(_), _) => r == Ok::<BatchAction, BatchError>(BatchAction::Descend(old(run).next))
                        && final(run).same_progress(*old(run)),
                }
            },
            // The next instruction is handed out; a nested batch as deep as
            // the executor's limit is refused without running.
            !old(run).stopped && old(run).undo is None && !old(run).awaiting ==> {
                let i = old(run).next as int;
                if i == req.instructions@.len() {
                    r == Ok::<BatchAction, BatchError>(BatchAction::Done) && final(run).same_progress(*old(run))
                } else {
                    match req.instructions@[i] {
                        BatchInstruction::Simple(_) => r == Ok::<BatchAction, BatchError>(BatchAction::Execute(old(run).next))
                            && final(run).awaiting && final(run).next == old(run).next && results_view(final(run).results@)
                            == results_view(old(run).results@) && final(run).has_failure == old(run).has_failure
                            && final(run).max_depth_reached == old(run).max_depth_reached,
                        BatchInstruction::Nested(n) => {
                            &&& final(run).max_depth_reached == (if n.depth > old(run).max_depth_reached {
                                n.depth
                            } else {
                                old(run).max_depth_reached
                            })
                            &&& n.depth >= self.max_depth ==> {
                                let err = BatchError::Validation(BatchValidationError::MaxDepthExceeded(n.depth, self.max_depth));
                                if req.atomic {
                                    refused(*old(run), *final(run), r, err)
                                } else {
                                    moved_on(*old(run), *final(run), r) && results_view(final(run).results@) == results_view(
                                        old(run).results@,
                                    ) && final(run).has_failure
                                }
                            }
                            &&& n.depth < self.max_depth ==> r == Ok::<BatchAction, BatchError>(BatchAction::Descend(old(run).next))
                                && final(run).awaiting && final(run).next == old(run).next && results_view(final(run).results@)
                                == results_view(old(run).results@) && final(run).has_failure == old(run).has_failure
                        }
                    }
                }
            },
    {
        if run.stopped {
            return Ok(BatchAction::Done);
        }
        match run.undo {
            Some(k) => {
                match ev {
                    BatchEvent::RolledBack(Err(e)) => {
                        run.undo = None;
                        run.stopped = true;
                        return Err(BatchError::RollbackFailed(e));
                    },
                    BatchEvent::RolledBack(Ok(())) => {
                        if k == 1 {
                            run.undo = None;
                            run.stopped = true;
                            let p = run.pending.take();
                            match p {
                                Some(err) => {
                                    return Err(err);
                                },
                                None => {
                                    return Ok(BatchAction::Done);
                                },
                            }
                        } else {
                            run.undo = Some(k - 1);
                            return Ok(BatchAction::Rollback(k - 2));
                        }
                    },
                    _ => {
                        return Ok(BatchAction::Rollback(k - 1));
                    },
                }
            },
            None => {},
        }
        let i = run.next;
        let len = req.instructions.len();
        if run.awaiting {
            assert(i < len);
            match (&req.instructions[i], ev) {
                (BatchInstruction::Simple(_), BatchEvent::Executed(Ok(x))) => {
                    run.results.push(x);
                    run.next = i + 1;
                    run.awaiting = false;
                    Ok(BatchAction::Continue)
                },
                (BatchInstruction::Simple(s), BatchEvent::Executed(Err(e))) => {
                    if req.atomic {
                        refuse(run, BatchError::AtomicFailure(e))
                    } else {
                        run.has_failure = true;
                        run.results.push(
                            ExecutionResult { execution_id: owned(s.execution_id.as_str()), success: false, output: String::new() },
                        );
                        run.next = i + 1;
                        run.awaiting = false;
                        Ok(BatchAction::Continue)
                    }
                },
                (BatchInstruction::Nested(n), BatchEvent::NestedDone(Ok(nr))) => {
                    let failed = nr.status == BatchStatus::Failed;
                    if failed && req.atomic {
                        let a = cat("Nested batch ", n.nested_batch_id.as_str());
                        let m = cat(a.as_str(), " failed");
                        refuse(run, BatchError::NestedExecutionFailed(m))
                    } else {
                        if failed {
                            run.has_failure = true;
                        }
                        let ghost before = run.results@;
                        let ghost r0 = *run;
                        let mut j: usize = 0;
                        while j < nr.results.len()
                            invariant
                                j <= nr.results@.len(),
                                run.next == r0.next,
                                run.awaiting == r0.awaiting,
                                run.undo == r0.undo,
                                run.stopped == r0.stopped,
                                run.has_failure == r0.has_failure,
                                run.max_depth_reached == r0.max_depth_reached,
                                run.nested_results == r0.nested_results,
                                run.pending == r0.pending,
                                run.results@.len() >= before.len(),
                                results_view(run.results@) == results_view(before) + results_view(nr.results@.take(j as int)),
                            decreases nr.results@.len() - j,
                        {
                            let c = copy_result(&nr.results[j]);
                            let ghost prev = run.results@;
                            run.results.push(c);
                            assert(results_view(run.results@) =~= results_view(prev).push(result_view(c)));
                            assert(results_view(nr.results@.take(j + 1)) =~= results_view(nr.results@.take(j as int)).push(
                                result_view(nr.results@[j as int]),
                            ));
                            j = j + 1;
                        }
                        assert(nr.results@.take(nr.results@.len() as int) =~= nr.results@);
                        run.nested_results.push(nr);
                        run.next = i + 1;
                        run.awaiting = false;
                        Ok(BatchAction::Continue)
                    }
                },
                (BatchInstruction::Nested(_), BatchEvent::NestedDone(Err(e))) => {
                    if req.atomic {
                        refuse(run, e)
                    } else {
                        run.has_failure = true;
                        run.next = i + 1;
                        run.awaiting = false;
                        Ok(BatchAction::Continue)
                    }
                },
                (BatchInstruction::Simple(_), _) => Ok(BatchAction::Execute(i)),
                (BatchInstruction::Nested(_), _) => Ok(BatchAction::Descend(i)),
            }
        } else if i == len {
            Ok(BatchAction::Done)
        } else {
            match &req.instructions[i] {
                BatchInstruction::Simple(_) => {
                    run.awaiting = true;
                    Ok(BatchAction::Execute(i))
                },
                BatchInstruction::Nested(n) => {
                    if n.depth > run.max_depth_reached {
                        run.max_depth_reached = n.depth;
                    }
                    if n.depth >= self.max_depth {
                        let err = BatchError::Validation(BatchValidationError::MaxDepthExceeded(n.depth, self.max_depth));
                        if req.atomic {
                            refuse(run, err)
                        } else {
                            run.has_failure = true;
                            run.next = i + 1;
                            Ok(BatchAction::Continue)
                        }
                    } else {
                        run.awaiting = true;
                        Ok(BatchAction::Descend(i))
                    }
                },
            }
        }
    }

    /// What a batch that ran to its end reports: its status from the results
    /// and failures, the results and nested results gathered, the deepest
    /// nesting reached, the instruction count with nesting expanded, and the
    /// batch hash `batch_hash`.
    pub fn batch_finish(&self, req: &BatchExecuteRequest, run: BatchRun, batch_hash: String) -> (r: BatchExecuteResult)
        requires
            run.wf(*req),
            run.next == req.instructions@.len(),
            !run.awaiting,
            run.undo is None,
            !run.stopped,
            instruction_count(req.instructions@) <= usize::MAX,
        ensures
            r.trace_id@ == req.trace_id@,
            r.batch_id@ == req.batch_id@,
            r.status == batch_status(run.results@, run.has_failure, req.atomic),
            r.results == run.results,
            r.nested_results == run.nested_results,
            r.batch_hash == batch_hash,
            r.total_instructions == instruction_count(req.instructions@),
            r.max_depth_reached == run.max_depth_reached,
    {
        let status = self.determine_batch_status(&run.results, run.has_failure, req.atomic);
        let total = req.total_instruction_count();
        let mut out = match status {
            BatchStatus::Success => BatchExecuteResult::success(
                owned(req.trace_id.as_str()),
                owned(req.batch_id.as_str()),
                run.results,
                batch_hash,
            ),
            BatchStatus::Failed => BatchExecuteResult::failed(
                owned(req.trace_id.as_str()),
                owned(req.batch_id.as_str()),
                run.results,
                batch_hash,
            ),
            BatchStatus::PartialFailure => BatchExecuteResult::partial_failure(
                owned(req.trace_id.as_str()),
                owned(req.batch_id.as_str()),
                run.results,
                batch_hash,
            ),
        };
        out.nested_results = run.nested_results;
        out.total_instructions = total;
        out.max_depth_reached = run.max_depth_reached;
        out
    }
}

} // verus!
