use vstd::prelude::*;

use crate::error::ExportError;

verus! {

/// The batch size used when the caller gives none.
pub const DEFAULT_BATCH_SIZE: usize = 1000;

/// Where a batch plan stands.
#[derive(Debug, Clone, Copy, PartialEq, Eq, Structural)]
pub enum PlanState {
    Idle,
    Running,
    Completed,
    Failed,
}

/// Progress after some rows are done: `100 * done / total` percent.
#[derive(Debug, Clone, Copy, PartialEq, Eq, Structural)]
pub struct ProgressSample {
    pub done: usize,
    pub total: usize,
}

/// What the caller does after a batch: report `progress`, then yield to the host before the
/// next batch when `suspend` holds.
#[derive(Debug, Clone, Copy, PartialEq, Eq, Structural)]
pub struct BatchStep {
    pub progress: ProgressSample,
    pub suspend: bool,
}

/// A batch plan as a mathematical value.
pub struct PlanView {
    pub total: nat,
    pub batch: nat,
    pub offset: nat,
    pub state: PlanState,
}

/// Walks `0..total_rows` in steps of `batch_size` rows, the last step clipped.
pub struct BatchPlan {
    total_rows: usize,
    batch_size: usize,
    offset: usize,
    state: PlanState,
}

/// Where a batch that starts at `offset` ends.
pub open spec fn batch_end(offset: nat, batch: nat, total: nat) -> nat {
    if offset + batch < total {
        offset + batch
    } else {
        total
    }
}

/// The offset after `k` batches.
pub open spec fn offset_after(total: nat, batch: nat, k: nat) -> nat {
    if k * batch < total {
        k * batch
    } else {
        total
    }
}

/// How many batches a run takes.
pub open spec fn batch_count(total: nat, batch: nat) -> nat
    recommends
        batch > 0,
{
    ((total + batch - 1) as nat / batch) as nat
}

impl View for BatchPlan {
    type V = PlanView;

    closed spec fn view(&self) -> PlanView {
        PlanView {
            total: self.total_rows as nat,
            batch: self.batch_size as nat,
            offset: self.offset as nat,
            state: self.state,
        }
    }
}

impl BatchPlan {
    /// The plan keeps its own rules: rows to do and a positive batch size, and an offset
    /// that is 0 before the start, short of the total while running, and the total once
    /// completed.
    pub closed spec fn wf(&self) -> bool {
        &&& self.total_rows > 0
        &&& self.batch_size > 0
        &&& self.offset <= self.total_rows
        &&& self.state == PlanState::Idle ==> self.offset == 0
        &&& self.state == PlanState::Running ==> self.offset < self.total_rows
        &&& self.state == PlanState::Completed ==> self.offset == self.total_rows
    }

    pub proof fn lemma_wf(&self)
        requires
            self.wf(),
        ensures
            0 < self@.total <= usize::MAX,
            0 < self@.batch <= usize::MAX,
            self@.offset <= self@.total,
            self@.state == PlanState::Idle ==> self@.offset == 0,
            self@.state == PlanState::Running ==> self@.offset < self@.total,
            self@.state == PlanState::Completed ==> self@.offset == self@.total,
    {
    }

    /// A plan for `total_rows` rows in batches of `batch_size`. A zero batch size is refused
    /// first, then an empty table.
    pub fn new(total_rows: usize, batch_size: usize) -> (r: Result<BatchPlan, ExportError>)
        ensures
            batch_size == 0 ==> r == Err::<BatchPlan, ExportError>(ExportError::InvalidBatchSize),
            batch_size > 0 && total_rows == 0 ==> r == Err::<BatchPlan, ExportError>(
                ExportError::EmptyTable,
            ),
            batch_size > 0 && total_rows > 0 ==> r is Ok,
            r matches Ok(p) ==> p.wf() && p@ == (PlanView {
                total: total_rows as nat,
                batch: batch_size as nat,
                offset: 0,
                state: PlanState::Idle,
            }),
    {
        if batch_size == 0 {
            return Err(ExportError::InvalidBatchSize);
        }
        if total_rows == 0 {
            return Err(ExportError::EmptyTable);
        }
        Ok(BatchPlan { total_rows, batch_size, offset: 0, state: PlanState::Idle })
    }

    pub fn total_rows(&self) -> (r: usize)
        ensures
            r == self@.total,
    {
        self.total_rows
    }

    pub fn batch_size(&self) -> (r: usize)
        ensures
            r == self@.batch,
    {
        self.batch_size
    }

    pub fn offset(&self) -> (r: usize)
        ensures
            r == self@.offset,
    {
        self.offset
    }

    pub fn state(&self) -> (r: PlanState)
        ensures
            r == self@.state,
    {
        self.state
    }

    /// Starts the run; the first progress sample is 0.
    pub fn start(&mut self) -> (r: ProgressSample)
        requires
            old(self).wf(),
            old(self)@.state == PlanState::Idle,
        ensures
            final(self).wf(),
            final(self)@ == (PlanView { state: PlanState::Running, ..old(self)@ }),
            r == (ProgressSample { done: 0, total: old(self)@.total as usize }),
    {
        self.state = PlanState::Running;
        ProgressSample { done: 0, total: self.total_rows }
    }

    /// The rows of the current batch: `r.0 <= i < r.1`.
    pub fn current_batch(&self) -> (r: (usize, usize))
        requires
            self.wf(),
            self@.state == PlanState::Running,
        ensures
            r.0 == self@.offset,
            r.1 == batch_end(self@.offset, self@.batch, self@.total),
            r.0 < r.1 <= self@.total,
    {
        (self.offset, self.end_of_batch())
    }

    fn end_of_batch(&self) -> (r: usize)
        requires
            self.wf(),
        ensures
            r == batch_end(self@.offset, self@.batch, self@.total),
    {
        if self.batch_size < self.total_rows - self.offset {
            self.offset + self.batch_size
        } else {
            self.total_rows
        }
    }

    /// Records that the current batch is done: the offset moves to its end, and the plan
    /// completes when that end is the last row.
    pub fn complete_batch(&mut self) -> (r: BatchStep)
        requires
            old(self).wf(),
            old(self)@.state == PlanState::Running,
        ensures
            final(self).wf(),
            final(self)@.total == old(self)@.total,
            final(self)@.batch == old(self)@.batch,
            final(self)@.offset == batch_end(old(self)@.offset, old(self)@.batch, old(self)@.total),
            old(self)@.offset < final(self)@.offset,
            r.progress == (ProgressSample {
                done: final(self)@.offset as usize,
                total: final(self)@.total as usize,
            }),
            r.suspend == (final(self)@.offset < final(self)@.total),
            final(self)@.state == if r.suspend {
                PlanState::Running
            } else {
                PlanState::Completed
            },
    {
        self.offset = self.end_of_batch();
        let suspend = self.offset < self.total_rows;
        self.state = if suspend {
            PlanState::Running
        } else {
            PlanState::Completed
        };
        BatchStep { progress: ProgressSample { done: self.offset, total: self.total_rows }, suspend }
    }

    /// Stops the run after an error.
    pub fn fail(&mut self)
        requires
            old(self).wf(),
        ensures
            final(self)@ == (PlanView { state: PlanState::Failed, ..old(self)@ }),
    {
        self.state = PlanState::Failed;
    }
}

/// The run of a plan: its offset starts at 0, each batch moves it to the offset after one
/// batch more, it never goes down, it stays short of the total until the last batch, and
/// after `batch_count` batches it is the total. So the progress samples `100 * offset / total`
/// start at 0, never go down, and end at exactly 100.
pub proof fn lemma_progress_run(total: nat, batch: nat)
    requires
        batch >= 1,
    ensures
        offset_after(total, batch, 0) == 0,
        forall|k: nat| #[trigger]
            batch_end(offset_after(total, batch, k), batch, total) == offset_after(
                total,
                batch,
                k + 1,
            ),
        forall|k: nat| #[trigger]
            offset_after(total, batch, k) <= offset_after(total, batch, k + 1),
        forall|k: nat| k < batch_count(total, batch) ==> #[trigger] offset_after(total, batch, k) < total,
        offset_after(total, batch, batch_count(total, batch)) == total,
{
    assert(0 * batch == 0) by (nonlinear_arith);
    assert forall|k: nat| #[trigger]
        batch_end(offset_after(total, batch, k), batch, total) == offset_after(
            total,
            batch,
            k + 1,
        ) by {
        assert((k + 1) * batch == k * batch + batch) by (nonlinear_arith);
    }
    assert forall|k: nat| #[trigger]
        offset_after(total, batch, k) <= offset_after(total, batch, k + 1) by {
        assert((k + 1) * batch == k * batch + batch) by (nonlinear_arith);
    }
    let n = batch_count(total, batch);
    assert forall|k: nat| k < n implies #[trigger] offset_after(total, batch, k) < total by {
        lemma_below_count(total, batch, k);
    }
    lemma_count_covers(total, batch);
}

proof fn lemma_below_count(total: nat, batch: nat, k: nat)
    requires
        batch >= 1,
        k < batch_count(total, batch),
    ensures
        k * batch < total,
{
    let m = (total + batch - 1) as nat;
    let n = m / batch;
    assert(n * batch <= m) by (nonlinear_arith)
        requires
            n == m / batch,
            batch >= 1,
    ;
    assert(k + 1 <= n);
    assert((k + 1) * batch <= n * batch) by (nonlinear_arith)
        requires
            k + 1 <= n,
    ;
    assert((k + 1) * batch == k * batch + batch) by (nonlinear_arith);
}

proof fn lemma_count_covers(total: nat, batch: nat)
    requires
        batch >= 1,
    ensures
        batch_count(total, batch) * batch >= total,
{
    let m = (total + batch - 1) as nat;
    let n = m / batch;
    assert(m < n * batch + batch) by (nonlinear_arith)
        requires
            n == m / batch,
            batch >= 1,
    ;
    assert(n * batch + batch == (n + 1) * batch) by (nonlinear_arith);
}

} // verus!
