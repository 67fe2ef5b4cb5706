use crate::ids::JobId;
use crate::job::{Job, JobView};
use vstd::prelude::*;

verus! {

/// Number of failed runs after which a job is given up.
pub const MAX_ATTEMPTS: u32 = 5;

/// Status of a job row. Success is not a status: a job that succeeded has no row.
#[derive(Clone, Copy, Debug, PartialEq, Eq, Structural)]
pub enum JobStatus {
    Pending,
    Failed,
}

/// A row of the job table.
#[derive(Debug)]
pub struct JobRow {
    pub id: JobId,
    pub fingerprint: Vec<u8>,
    pub job: Job,
    pub status: JobStatus,
    pub attempts: u32,
}

/// A row of the job table, as mathematical values.
pub struct JobRowView {
    pub id: JobId,
    pub fingerprint: Seq<u8>,
    pub job: JobView,
    pub status: JobStatus,
    pub attempts: nat,
}

impl View for JobRow {
    type V = JobRowView;

    open spec fn view(&self) -> JobRowView {
        JobRowView {
            id: self.id,
            fingerprint: self.fingerprint@,
            job: self.job@,
            status: self.status,
            attempts: self.attempts as nat,
        }
    }
}

/// A job taken from the queue by the run phase.
#[derive(Debug)]
pub struct ClaimedJob {
    pub id: JobId,
    pub job: Job,
    pub attempts: u32,
}

/// Result of an enqueue.
#[derive(Clone, Copy, Debug, PartialEq, Eq, Structural)]
pub enum Enqueued {
    /// A new row was inserted under the given id.
    Inserted(JobId),
    /// A job with the same fingerprint was already queued, under the given id.
    AlreadyEnqueued(JobId),
    /// The fresh id was already taken by another row; nothing was inserted.
    IdInUse,
}

/// What the run phase does with a claimed job, given its attempts so far.
#[derive(Clone, Copy, Debug, PartialEq, Eq, Structural)]
pub enum RunDecision {
    /// The retry budget is spent: mark the row failed without running it.
    MarkFailed,
    /// Run the job's handler.
    Run,
}

pub open spec fn spec_run_decision(attempts: nat) -> RunDecision {
    if attempts >= MAX_ATTEMPTS as nat {
        RunDecision::MarkFailed
    } else {
        RunDecision::Run
    }
}

/// Decides whether a claimed job still runs or is marked failed.
pub fn run_decision(attempts: u32) -> (r: RunDecision)
    ensures
        r == spec_run_decision(attempts as nat),
{
    if attempts >= MAX_ATTEMPTS {
        RunDecision::MarkFailed
    } else {
        RunDecision::Run
    }
}

/// Whether some row has fingerprint `f`.
pub open spec fn has_fingerprint(rows: Seq<JobRowView>, f: Seq<u8>) -> bool {
    exists|i: int| 0 <= i < rows.len() && #[trigger] rows[i].fingerprint == f
}

pub open spec fn has_id(rows: Seq<JobRowView>, id: JobId) -> bool {
    exists|i: int| 0 <= i < rows.len() && #[trigger] rows[i].id == id
}

/// Fingerprints and ids are unique, and each row's fingerprint is its job's.
pub open spec fn rows_wf(rows: Seq<JobRowView>) -> bool {
    &&& forall|i: int, j: int|
        0 <= i < rows.len() && 0 <= j < rows.len() && i != j ==> #[trigger] rows[i].fingerprint
            != #[trigger] rows[j].fingerprint
    &&& forall|i: int, j: int|
        0 <= i < rows.len() && 0 <= j < rows.len() && i != j ==> #[trigger] rows[i].id
            != #[trigger] rows[j].id
    &&& forall|i: int| 0 <= i < rows.len() ==> #[trigger] rows[i].fingerprint == rows[i].job.fingerprint()
}

/// The table after an insert-if-absent of `job` under the fresh id `id`.
pub open spec fn spec_enqueue(rows: Seq<JobRowView>, job: JobView, id: JobId) -> Seq<JobRowView> {
    if has_fingerprint(rows, job.fingerprint()) || has_id(rows, id) {
        rows
    } else {
        rows.push(
            JobRowView {
                id,
                fingerprint: job.fingerprint(),
                job,
                status: JobStatus::Pending,
                attempts: 0,
            },
        )
    }
}

/// Whether `r` reports the queued row with fingerprint `f`.
pub open spec fn reports_queued(rows: Seq<JobRowView>, f: Seq<u8>, r: Enqueued) -> bool {
    exists|i: int|
        0 <= i < rows.len() && #[trigger] rows[i].fingerprint == f && r == Enqueued::AlreadyEnqueued(
            rows[i].id,
        )
}

/// The table after enqueueing `jobs` in order, the k-th under the fresh id `ids[k]`.
pub open spec fn enqueue_all(rows: Seq<JobRowView>, jobs: Seq<JobView>, ids: Seq<JobId>) -> Seq<JobRowView>
    decreases jobs.len(),
{
    if jobs.len() == 0 || ids.len() == 0 {
        rows
    } else {
        spec_enqueue(enqueue_all(rows, jobs.drop_last(), ids.drop_last()), jobs.last(), ids.last())
    }
}

/// The rows in pending status, in table order.
pub open spec fn pending(rows: Seq<JobRowView>) -> Seq<JobRowView>
    decreases rows.len(),
{
    if rows.len() == 0 {
        seq![]
    } else {
        let rest = pending(rows.drop_last());
        if rows.last().status == JobStatus::Pending {
            rest.push(rows.last())
        } else {
            rest
        }
    }
}

/// The rows that a claim of up to `n` jobs takes.
pub open spec fn spec_claim(rows: Seq<JobRowView>, n: nat) -> Seq<JobRowView> {
    let p = pending(rows);
    if n < p.len() {
        p.take(n as int)
    } else {
        p
    }
}

/// The row after one run of the run phase on it. `handler_ok` is what the
/// handler returned, where it runs. `None` means the row is deleted.
pub open spec fn spec_process(row: JobRowView, handler_ok: bool) -> Option<JobRowView> {
    if spec_run_decision(row.attempts) == RunDecision::MarkFailed {
        Some(JobRowView { status: JobStatus::Failed, ..row })
    } else if handler_ok {
        None
    } else {
        Some(JobRowView { attempts: row.attempts + 1, ..row })
    }
}

/// Position of the row with id `id`; meaningful where `has_id(rows, id)`.
pub open spec fn index_of_id(rows: Seq<JobRowView>, id: JobId) -> int {
    choose|i: int| 0 <= i < rows.len() && #[trigger] rows[i].id == id
}

/// The row with id `id`; meaningful where `has_id(rows, id)`.
pub open spec fn row_of(rows: Seq<JobRowView>, id: JobId) -> JobRowView {
    rows[index_of_id(rows, id)]
}

/// The table after the row with id `id` is replaced by `new_row`, or deleted
/// where `new_row` is `None`. Without such a row the table is unchanged.
pub open spec fn update_row(rows: Seq<JobRowView>, id: JobId, new_row: Option<JobRowView>) -> Seq<
    JobRowView,
> {
    if has_id(rows, id) {
        let i = index_of_id(rows, id);
        match new_row {
            Some(r) => rows.update(i, r),
            None => rows.remove(i),
        }
    } else {
        rows
    }
}

/// The table after one pass of the run phase over the row with id `id`.
pub open spec fn spec_run_row(rows: Seq<JobRowView>, id: JobId, handler_ok: bool) -> Seq<JobRowView> {
    update_row(rows, id, spec_process(row_of(rows, id), handler_ok))
}

/// The row after `k` passes of the run phase whose handler fails each time.
pub open spec fn failing_runs(row: JobRowView, k: nat) -> Option<JobRowView>
    decreases k,
{
    if k == 0 {
        Some(row)
    } else {
        match failing_runs(row, (k - 1) as nat) {
            Some(r) => spec_process(r, false),
            None => None,
        }
    }
}

/// The job store: the durable queue's rows, one per distinct piece of work.
pub struct JobTable {
    rows: Vec<JobRow>,
}

impl View for JobTable {
    type V = Seq<JobRowView>;

    closed spec fn view(&self) -> Seq<JobRowView> {
        self.rows@.map_values(|r: JobRow| r@)
    }
}

fn bytes_equal(a: &Vec<u8>, b: &Vec<u8>) -> (r: bool)
    ensures
        r == (a@ == b@),
{
    if a.len() != b.len() {
        return false;
    }
    let mut i: usize = 0;
    while i < a.len()
        invariant
            a@.len() == b@.len(),
            i <= a@.len(),
            forall|k: int| 0 <= k < i ==> a@[k] == b@[k],
        decreases a@.len() - i,
    {
        if a[i] != b[i] {
            return false;
        }
        i = i + 1;
    }
    assert(a@ =~= b@);
    true
}

impl JobTable {
    /// An empty table.
    pub fn new() -> (r: JobTable)
        ensures
            r@ == Seq::<JobRowView>::empty(),
            rows_wf(r@),
    {
        let r = JobTable { rows: Vec::new() };
        assert(r@ =~= Seq::<JobRowView>::empty());
        r
    }

    /// The rows, in table order.
    pub fn rows(&self) -> (r: &Vec<JobRow>)
        ensures
            r@.map_values(|x: JobRow| x@) == self@,
    {
        &self.rows
    }

    pub fn len(&self) -> (r: usize)
        ensures
            r == self@.len(),
    {
        self.rows.len()
    }

    /// Position of the row with id `id`, if any.
    fn find_id(&self, id: JobId) -> (r: Option<usize>)
        requires
            rows_wf(self@),
        ensures
            r is None <==> !has_id(self@, id),
            r matches Some(i) ==> i < self@.len() && self@[i as int].id == id && index_of_id(
                self@,
                id,
            ) == i,
    {
        let mut i: usize = 0;
        while i < self.rows.len()
            invariant
                i <= self@.len(),
                self@.len() == self.rows@.len(),
                rows_wf(self@),
                forall|k: int| 0 <= k < i ==> self@[k].id != id,
            decreases self.rows@.len() - i,
        {
            assert(self@[i as int] == self.rows@[i as int]@);
            if self.rows[i].id == id {
                assert(self@[i as int].id == id);
                proof {
                    assert(has_id(self@, id));
                    let j = index_of_id(self@, id);
                    assert(self@[j].id == id);
                }
                return Some(i);
            }
            i = i + 1;
        }
        None
    }

    /// Inserts `job` under the fresh id `id` unless a job with the same
    /// fingerprint is already in the table, in which case nothing changes.
    pub fn enqueue(&mut self, job: Job, id: JobId) -> (r: Enqueued)
        requires
            rows_wf(old(self)@),
        ensures
            final(self)@ == spec_enqueue(old(self)@, job@, id),
            rows_wf(final(self)@),
            has_fingerprint(old(self)@, job@.fingerprint()) ==> exists|i: int|
                0 <= i < old(self)@.len() && old(self)@[i].fingerprint == job@.fingerprint()
                    && r == Enqueued::AlreadyEnqueued(old(self)@[i].id),
            !has_fingerprint(old(self)@, job@.fingerprint()) && has_id(old(self)@, id) ==> r
                == Enqueued::IdInUse,
            !has_fingerprint(old(self)@, job@.fingerprint()) && !has_id(old(self)@, id) ==> r
                == Enqueued::Inserted(id),
    {
        let fingerprint = job.fingerprint();
        let ghost start = self@;
        let mut i: usize = 0;
        while i < self.rows.len()
            invariant
                self@ == start,
                start == old(self)@,
                rows_wf(start),
                i <= self@.len(),
                self@.len() == self.rows@.len(),
                fingerprint@ == job@.fingerprint(),
                forall|k: int| 0 <= k < i ==> self@[k].fingerprint != fingerprint@,
            decreases self.rows@.len() - i,
        {
            assert(self@[i as int] == self.rows@[i as int]@);
            if bytes_equal(&self.rows[i].fingerprint, &fingerprint) {
                assert(self@[i as int].fingerprint == job@.fingerprint());
                assert(has_fingerprint(start, job@.fingerprint()));
                return Enqueued::AlreadyEnqueued(self.rows[i].id);
            }
            i = i + 1;
        }
        assert(!has_fingerprint(start, job@.fingerprint()));
        if self.find_id(id).is_some() {
            return Enqueued::IdInUse;
        }
        let row = JobRow { id, fingerprint, job, status: JobStatus::Pending, attempts: 0 };
        let ghost before = self@;
        self.rows.push(row);
        assert(self@ =~= before.push(row@));
        Enqueued::Inserted(id)
    }

    /// Takes up to `n` pending jobs, in table order.
    pub fn claim_batch(&self, n: usize) -> (r: Vec<ClaimedJob>)
        ensures
            r@.len() == spec_claim(self@, n as nat).len(),
            forall|k: int|
                0 <= k < r@.len() ==> {
                    let c = #[trigger] spec_claim(self@, n as nat)[k];
                    &&& r@[k].id == c.id
                    &&& r@[k].job@ == c.job
                    &&& r@[k].attempts as nat == c.attempts
                },
    {
        let mut out: Vec<ClaimedJob> = Vec::new();
        let mut i: usize = 0;
        while i < self.rows.len() && out.len() < n
            invariant
                i <= self@.len(),
                self@.len() == self.rows@.len(),
                out@.len() <= n,
                out@.len() == pending(self@.take(i as int)).len(),
                forall|k: int|
                    0 <= k < out@.len() ==> {
                        let c = #[trigger] pending(self@.take(i as int))[k];
                        &&& out@[k].id == c.id
                        &&& out@[k].job@ == c.job
                        &&& out@[k].attempts as nat == c.attempts
                    },
            decreases self.rows@.len() - i,
        {
            let ghost prev = pending(self@.take(i as int));
            assert(self@.take(i as int + 1).drop_last() =~= self@.take(i as int));
            assert(self@.take(i as int + 1).last() == self@[i as int]);
            assert(self@[i as int] == self.rows@[i as int]@);
            let row = &self.rows[i];
            if row.status == JobStatus::Pending {
                out.push(ClaimedJob { id: row.id, job: row.job.duplicate(), attempts: row.attempts });
                assert(pending(self@.take(i as int + 1)) == prev.push(self@[i as int]));
            } else {
                assert(pending(self@.take(i as int + 1)) == prev);
            }
            i = i + 1;
        }
        proof {
            lemma_pending_prefix(self@, i as int);
            let p = pending(self@);
            let q = pending(self@.take(i as int));
            if i == self@.len() {
                assert(self@.take(i as int) =~= self@);
                assert(spec_claim(self@, n as nat) == q);
            } else {
                assert(q.len() == n);
                if n < p.len() {
                    assert(spec_claim(self@, n as nat) == q);
                } else {
                    assert(p =~= p.take(n as int));
                    assert(spec_claim(self@, n as nat) == q);
                }
            }
        }
        out
    }

    /// Replaces the row with id `id`, or deletes it where `new_row` is `None`.
    fn set_row(&mut self, id: JobId, new_state: Option<(JobStatus, u32)>)
        requires
            rows_wf(old(self)@),
        ensures
            final(self)@ == update_row(
                old(self)@,
                id,
                match new_state {
                    Some((st, at)) => Some(
                        JobRowView { status: st, attempts: at as nat, ..row_of(old(self)@, id) },
                    ),
                    None => None,
                },
            ),
            rows_wf(final(self)@),
    {
        let ghost new_row = match new_state {
            Some((st, at)) => Some(
                JobRowView { status: st, attempts: at as nat, ..row_of(self@, id) },
            ),
            None => None,
        };
        match self.find_id(id) {
            None => {},
            Some(i) => {
                let ghost before = self@;
                assert(self@[i as int] == self.rows@[i as int]@);
                let mut row = self.rows.remove(i);
                match new_state {
                    None => {
                        assert(self@ =~= before.remove(i as int));
                    },
                    Some((st, at)) => {
                        row.status = st;
                        row.attempts = at;
                        self.rows.insert(i, row);
                        assert(self@ =~= before.update(i as int, new_row.unwrap()));
                    },
                }
                proof {
                    let after = self@;
                    assert forall|a: int, b: int|
                        0 <= a < after.len() && 0 <= b < after.len() && a != b implies #[trigger] after[a].fingerprint
                            != #[trigger] after[b].fingerprint && after[a].id != after[b].id by {
                        let oa = if new_row is None && a >= i { a + 1 } else { a };
                        let ob = if new_row is None && b >= i { b + 1 } else { b };
                        assert(after[a].fingerprint == before[oa].fingerprint);
                        assert(after[b].fingerprint == before[ob].fingerprint);
                        assert(after[a].id == before[oa].id);
                        assert(after[b].id == before[ob].id);
                    }
                }
            },
        }
    }

    /// Marks the row with id `id` failed.
    pub fn mark_failed(&mut self, id: JobId)
        requires
            rows_wf(old(self)@),
        ensures
            final(self)@ == update_row(
                old(self)@,
                id,
                Some(JobRowView { status: JobStatus::Failed, ..row_of(old(self)@, id) }),
            ),
            rows_wf(final(self)@),
    {
        match self.find_id(id) {
            None => {},
            Some(i) => {
                assert(self@[i as int] == self.rows@[i as int]@);
                let attempts = self.rows[i].attempts;
                self.set_row(id, Some((JobStatus::Failed, attempts)));
            },
        }
    }

    /// Counts one more failed run of the row with id `id`.
    pub fn increment_attempts(&mut self, id: JobId)
        requires
            rows_wf(old(self)@),
            has_id(old(self)@, id) ==> row_of(old(self)@, id).attempts < u32::MAX as nat,
        ensures
            final(self)@ == update_row(
                old(self)@,
                id,
                Some(JobRowView { attempts: row_of(old(self)@, id).attempts + 1, ..row_of(old(self)@, id) }),
            ),
            rows_wf(final(self)@),
    {
        match self.find_id(id) {
            None => {},
            Some(i) => {
                assert(self@[i as int] == self.rows@[i as int]@);
                let status = self.rows[i].status;
                let attempts = self.rows[i].attempts;
                self.set_row(id, Some((status, attempts + 1)));
            },
        }
    }

    /// Deletes the row with id `id`: the job succeeded.
    pub fn delete(&mut self, id: JobId)
        requires
            rows_wf(old(self)@),
        ensures
            final(self)@ == update_row(old(self)@, id, None),
            rows_wf(final(self)@),
    {
        self.set_row(id, None);
    }

    /// One pass of the run phase over the claimed row with id `id`: a row
    /// whose retry budget is spent is marked failed; otherwise the row is
    /// deleted where its handler succeeded, and its attempts counted up where
    /// it failed. `handler_ok` is not read for a row that is marked failed.
    pub fn run_row(&mut self, id: JobId, handler_ok: bool)
        requires
            rows_wf(old(self)@),
        ensures
            final(self)@ == spec_run_row(old(self)@, id, handler_ok),
            rows_wf(final(self)@),
    {
        match self.find_id(id) {
            None => {},
            Some(i) => {
                assert(self@[i as int] == self.rows@[i as int]@);
                let attempts = self.rows[i].attempts;
                match run_decision(attempts) {
                    RunDecision::MarkFailed => self.mark_failed(id),
                    RunDecision::Run => {
                        if handler_ok {
                            self.delete(id);
                        } else {
                            self.increment_attempts(id);
                        }
                    },
                }
            },
        }
    }
}

/// Enqueueing the same job twice leaves exactly one row with its fingerprint,
/// and the second enqueue changes nothing. The first enqueue is given an id
/// that no row holds yet.
pub proof fn lemma_enqueue_idempotent(rows: Seq<JobRowView>, job: JobView, id1: JobId, id2: JobId)
    requires
        rows_wf(rows),
        !has_id(rows, id1),
    ensures
        spec_enqueue(spec_enqueue(rows, job, id1), job, id2) == spec_enqueue(rows, job, id1),
        ({
            let after = spec_enqueue(spec_enqueue(rows, job, id1), job, id2);
            exists|i: int|
                0 <= i < after.len() && after[i].fingerprint == job.fingerprint() && forall|j: int|
                    0 <= j < after.len() && #[trigger] after[j].fingerprint == job.fingerprint()
                        ==> j == i
        }),
{
    let f = job.fingerprint();
    let once = spec_enqueue(rows, job, id1);
    let i = if has_fingerprint(rows, f) {
        choose|i: int| 0 <= i < rows.len() && #[trigger] rows[i].fingerprint == f
    } else {
        rows.len() as int
    };
    if !has_fingerprint(rows, f) {
        assert(forall|j: int| 0 <= j < rows.len() ==> once[j] == rows[j]);
    }
    assert(0 <= i < once.len() && once[i].fingerprint == f);
    assert(has_fingerprint(once, f));
    let after = spec_enqueue(once, job, id2);
    assert(after == once);
    assert(forall|j: int|
        0 <= j < after.len() && #[trigger] after[j].fingerprint == f ==> j == i);
    assert(0 <= i < after.len() && after[i].fingerprint == f && forall|j: int|
        0 <= j < after.len() && #[trigger] after[j].fingerprint == f ==> j == i);
}

/// A job whose handler succeeds is deleted exactly once: after the pass no row
/// has its id, one row fewer remains, every other row is kept, and any later
/// pass over that id changes nothing.
pub proof fn lemma_success_deletes_once(rows: Seq<JobRowView>, id: JobId, later_ok: bool)
    requires
        rows_wf(rows),
        has_id(rows, id),
        spec_run_decision(row_of(rows, id).attempts) == RunDecision::Run,
    ensures
        ({
            let after = spec_run_row(rows, id, true);
            &&& !has_id(after, id)
            &&& after.len() == rows.len() - 1
            &&& forall|k: int|
                0 <= k < rows.len() && rows[k].id != id ==> exists|m: int|
                    0 <= m < after.len() && #[trigger] after[m] == #[trigger] rows[k]
            &&& spec_run_row(after, id, later_ok) == after
        }),
{
    let i = index_of_id(rows, id);
    let after = spec_run_row(rows, id, true);
    assert(after == rows.remove(i));
    assert forall|m: int| 0 <= m < after.len() implies #[trigger] after[m].id != id by {
        let o = if m < i { m } else { m + 1 };
        assert(after[m] == rows[o]);
    }
    assert forall|k: int| 0 <= k < rows.len() && rows[k].id != id implies exists|m: int|
        0 <= m < after.len() && #[trigger] after[m] == #[trigger] rows[k] by {
        let m = if k < i { k } else { k - 1 };
        assert(after[m] == rows[k]);
    }
}

/// A pending job whose handler fails on every run keeps its row pending while
/// its attempts count up to the bound, one per run, and is marked failed on
/// the run after the bound is reached; it stays failed from then on.
pub proof fn lemma_retry_bound(row: JobRowView, k: nat)
    requires
        row.status == JobStatus::Pending,
        row.attempts == 0,
    ensures
        k <= MAX_ATTEMPTS as nat ==> failing_runs(row, k) == Some(
            JobRowView { attempts: k, ..row },
        ),
        k > MAX_ATTEMPTS as nat ==> failing_runs(row, k) == Some(
            JobRowView { status: JobStatus::Failed, attempts: MAX_ATTEMPTS as nat, ..row },
        ),
    decreases k,
{
    if k > 0 {
        lemma_retry_bound(row, (k - 1) as nat);
    }
}

/// A failed row is never claimed again.
pub proof fn lemma_failed_not_claimed(rows: Seq<JobRowView>, n: nat, k: int)
    requires
        0 <= k < spec_claim(rows, n).len(),
    ensures
        spec_claim(rows, n)[k].status == JobStatus::Pending,
{
    lemma_pending_all_pending(rows);
}

proof fn lemma_pending_all_pending(rows: Seq<JobRowView>)
    ensures
        forall|k: int|
            0 <= k < pending(rows).len() ==> #[trigger] pending(rows)[k].status
                == JobStatus::Pending,
    decreases rows.len(),
{
    if rows.len() > 0 {
        lemma_pending_all_pending(rows.drop_last());
    }
}

/// The table after `k` passes of the run phase over the row with id `id`,
/// whose handler fails each time it runs.
pub open spec fn failing_table_runs(rows: Seq<JobRowView>, id: JobId, k: nat) -> Seq<JobRowView>
    decreases k,
{
    if k == 0 {
        rows
    } else {
        spec_run_row(failing_table_runs(rows, id, (k - 1) as nat), id, false)
    }
}

/// One failing pass over a row keeps it in place, as `spec_process` makes it.
proof fn lemma_failing_pass(rows: Seq<JobRowView>, id: JobId)
    requires
        rows_wf(rows),
        has_id(rows, id),
    ensures
        ({
            let after = spec_run_row(rows, id, false);
            let i = index_of_id(rows, id);
            &&& spec_process(row_of(rows, id), false) is Some
            &&& after == rows.update(i, spec_process(row_of(rows, id), false).unwrap())
            &&& rows_wf(after)
            &&& has_id(after, id)
            &&& row_of(after, id) == spec_process(row_of(rows, id), false).unwrap()
        }),
{
    let i = index_of_id(rows, id);
    let after = spec_run_row(rows, id, false);
    let r = spec_process(row_of(rows, id), false).unwrap();
    assert(after == rows.update(i, r));
    assert(after[i].id == id);
    assert(has_id(after, id));
    let j = index_of_id(after, id);
    assert forall|a: int, b: int|
        0 <= a < after.len() && 0 <= b < after.len() && a != b implies #[trigger] after[a].id
            != #[trigger] after[b].id && after[a].fingerprint != after[b].fingerprint by {
        assert(rows[a].id != rows[b].id);
        assert(rows[a].fingerprint != rows[b].fingerprint);
    }
    assert forall|a: int| 0 <= a < after.len() implies #[trigger] after[a].fingerprint == after[a].job.fingerprint() by {
    }
    assert(j == i);
}

/// Retry bound on the table: a pending job with no attempts whose handler
/// always fails keeps its row, pending, with one more attempt per pass, for
/// `MAX_ATTEMPTS` passes, in each of which the run phase runs its handler;
/// the next pass marks it failed without running it, and it stays failed with
/// `MAX_ATTEMPTS` attempts. The other rows are never touched.
pub proof fn lemma_table_retry_bound(rows: Seq<JobRowView>, id: JobId, k: nat)
    requires
        rows_wf(rows),
        has_id(rows, id),
        row_of(rows, id).status == JobStatus::Pending,
        row_of(rows, id).attempts == 0,
    ensures
        ({
            let after = failing_table_runs(rows, id, k);
            &&& rows_wf(after)
            &&& has_id(after, id)
            &&& after.len() == rows.len()
            &&& forall|m: int| 0 <= m < rows.len() && rows[m].id != id ==> #[trigger] after[m] == rows[m]
            &&& k <= MAX_ATTEMPTS as nat ==> row_of(after, id) == JobRowView { attempts: k, ..row_of(rows, id) }
            &&& k < MAX_ATTEMPTS as nat ==> spec_run_decision(row_of(after, id).attempts) == RunDecision::Run
            &&& k == MAX_ATTEMPTS as nat ==> spec_run_decision(row_of(after, id).attempts)
                == RunDecision::MarkFailed
            &&& k > MAX_ATTEMPTS as nat ==> row_of(after, id) == JobRowView {
                status: JobStatus::Failed,
                attempts: MAX_ATTEMPTS as nat,
                ..row_of(rows, id)
            }
        }),
    decreases k,
{
    if k > 0 {
        lemma_table_retry_bound(rows, id, (k - 1) as nat);
        let prev = failing_table_runs(rows, id, (k - 1) as nat);
        lemma_failing_pass(prev, id);
        let i = index_of_id(prev, id);
        assert forall|m: int| 0 <= m < rows.len() && rows[m].id != id implies #[trigger] failing_table_runs(
            rows,
            id,
            k,
        )[m] == rows[m] by {
            assert(prev[m] == rows[m]);
            assert(prev[i].id == id);
        }
    }
}

/// The pending rows of a prefix of the table are a prefix of its pending rows.
proof fn lemma_pending_prefix(rows: Seq<JobRowView>, i: int)
    requires
        0 <= i <= rows.len(),
    ensures
        pending(rows.take(i)).len() <= pending(rows).len(),
        pending(rows.take(i)) == pending(rows).take(pending(rows.take(i)).len() as int),
    decreases rows.len(),
{
    if i == rows.len() {
        assert(rows.take(i) =~= rows);
        assert(pending(rows) =~= pending(rows).take(pending(rows).len() as int));
    } else {
        assert(rows.take(i) =~= rows.drop_last().take(i));
        lemma_pending_prefix(rows.drop_last(), i);
        let p = pending(rows.drop_last());
        let q = pending(rows.take(i));
        assert(pending(rows).take(q.len() as int) =~= p.take(q.len() as int));
    }
}

} // verus!
