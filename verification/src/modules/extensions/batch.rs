//! Batch inserts: many rows of one statement inside transactions.
//!
//! A batch runs as `BEGIN IMMEDIATE TRANSACTION`, one statement per row,
//! `COMMIT`; the chunked form does this once per chunk of rows. When a row
//! fails, `ROLLBACK` is sent and the row's error is returned (or the
//! rollback's own error, if the rollback fails too); a failed `BEGIN` or
//! `COMMIT` ends the batch with its error. Chunks committed before a failure
//! stay committed.
//!
//! Each statement is awaited, so the batch is a state machine: [`BatchRun`]
//! says which statement to send next, and takes the outcome of each one.

use vstd::prelude::*;

use crate::modules::sqlite_core::database::{is_db_open, Database};
use crate::modules::sqlite_core::error::DbError;

verus! {

/// The chunk size of `insert_batch_chunked` when JavaScript gives none.
pub const DEFAULT_CHUNK_SIZE: usize = 500;

/// The chunk size used for a chunk size given (or not) from JavaScript.
pub fn chunk_size_or_default(chunk_size: Option<usize>) -> (c: usize)
    ensures
        c == match chunk_size {
            Some(n) => n,
            None => DEFAULT_CHUNK_SIZE,
        },
{
    match chunk_size {
        Some(n) => n,
        None => DEFAULT_CHUNK_SIZE,
    }
}

/// The rows of a batch as handed over from JavaScript: each entry is the
/// row's cells, or `None` when the entry is not an array.
pub open spec fn all_arrays<V>(rows: Seq<Option<Vec<V>>>) -> bool {
    forall|i: int| 0 <= i < rows.len() ==> (#[trigger] rows[i]) is Some
}

/// Checks that every row of a batch is an array: `RowNotArray` when one is
/// not, else the rows in order.
pub fn js_array_to_vec<V>(rows: Vec<Option<Vec<V>>>) -> (r: Result<Vec<Vec<V>>, DbError<V>>)
    ensures
        (r is Ok) == all_arrays(rows@),
        r matches Err(e) ==> e is RowNotArray,
        r matches Ok(out) ==> out@.len() == rows@.len() && forall|i: int|
            0 <= i < rows@.len() ==> #[trigger] out@[i] == rows@[i]->0,
{
    let ghost orig = rows@;
    let mut rest = rows;
    let mut out: Vec<Vec<V>> = Vec::new();
    let n = rest.len();
    let mut i: usize = 0;
    while i < n
        invariant
            i <= n,
            n == orig.len(),
            orig == rows@,
            rest@ == orig.subrange(i as int, n as int),
            out@.len() == i,
            forall|j: int| 0 <= j < i ==> #[trigger] out@[j] == orig[j]->0,
            forall|j: int| 0 <= j < i ==> (#[trigger] orig[j]) is Some,
        decreases n - i,
    {
        let r = rest.remove(0);
        assert(r == orig[i as int]);
        match r {
            Some(cells) => {
                out.push(cells);
            },
            None => {
                assert(!((orig[i as int]) is Some));
                assert(!all_arrays(orig));
                return Err(DbError::RowNotArray);
            },
        }
        i = i + 1;
        assert(rest@ =~= orig.subrange(i as int, n as int));
    }
    Ok(out)
}

/// A statement of a batch.
pub enum BatchStatement<V> {
    /// `BEGIN IMMEDIATE TRANSACTION`.
    Begin,
    /// The batch's SQL with one row of parameters.
    Row(Vec<V>),
    /// `COMMIT`.
    Commit,
    /// `ROLLBACK`.
    Rollback,
}

impl<V> BatchStatement<V> {
    /// The SQL of a transaction control statement; `None` for a row, which
    /// runs the batch's own SQL.
    pub fn control_sql(&self) -> (s: Option<&'static str>)
        ensures
            match *self {
                BatchStatement::Begin => s matches Some(t) && t@ == "BEGIN IMMEDIATE TRANSACTION"@,
                BatchStatement::Row(_) => s is None,
                BatchStatement::Commit => s matches Some(t) && t@ == "COMMIT"@,
                BatchStatement::Rollback => s matches Some(t) && t@ == "ROLLBACK"@,
            },
    {
        match self {
            BatchStatement::Begin => Some("BEGIN IMMEDIATE TRANSACTION"),
            BatchStatement::Row(_) => None,
            BatchStatement::Commit => Some("COMMIT"),
            BatchStatement::Rollback => Some("ROLLBACK"),
        }
    }
}

/// What a batch does next.
pub enum BatchStep<V> {
    /// Send this statement and report its outcome.
    Run(BatchStatement<V>),
    /// The batch is over with this result.
    Done(Result<(), DbError<V>>),
}

/// Where a batch stands.
pub enum BatchPhase {
    /// `BEGIN` was sent.
    AwaitBegin,
    /// A row was sent.
    AwaitRow,
    /// `ROLLBACK` was sent after a failed row.
    AwaitRollback,
    /// `COMMIT` was sent.
    AwaitCommit,
    /// The batch is over.
    Finished,
}

/// The kind of a batch step, forgetting the rows and errors it carries.
pub enum BatchOutcome {
    Begin,
    Row,
    Commit,
    Rollback,
    Succeeded,
    Failed,
}

/// The kind of a step.
pub open spec fn step_kind<V>(s: BatchStep<V>) -> BatchOutcome {
    match s {
        BatchStep::Run(BatchStatement::Begin) => BatchOutcome::Begin,
        BatchStep::Run(BatchStatement::Row(_)) => BatchOutcome::Row,
        BatchStep::Run(BatchStatement::Commit) => BatchOutcome::Commit,
        BatchStep::Run(BatchStatement::Rollback) => BatchOutcome::Rollback,
        BatchStep::Done(Ok(_)) => BatchOutcome::Succeeded,
        BatchStep::Done(Err(_)) => BatchOutcome::Failed,
    }
}

/// The abstract state of a batch: its phase, how many rows are still to be
/// sent, how many of them belong to the current chunk, and the chunk size.
pub struct BatchModel {
    pub phase: BatchPhase,
    pub remaining: nat,
    pub chunk_left: nat,
    pub chunk: nat,
}

/// The smaller of two naturals.
pub open spec fn min_nat(a: nat, b: nat) -> nat {
    if a <= b {
        a
    } else {
        b
    }
}

/// The next state and step after the last statement succeeded.
pub open spec fn model_on_ok(m: BatchModel) -> (BatchModel, BatchOutcome) {
    match m.phase {
        BatchPhase::AwaitBegin => {
            let k = min_nat(m.chunk, m.remaining);
            (
                BatchModel {
                    phase: BatchPhase::AwaitRow,
                    remaining: (m.remaining - 1) as nat,
                    chunk_left: (k - 1) as nat,
                    chunk: m.chunk,
                },
                BatchOutcome::Row,
            )
        },
        BatchPhase::AwaitRow => if m.chunk_left > 0 {
            (
                BatchModel {
                    phase: BatchPhase::AwaitRow,
                    remaining: (m.remaining - 1) as nat,
                    chunk_left: (m.chunk_left - 1) as nat,
                    chunk: m.chunk,
                },
                BatchOutcome::Row,
            )
        } else {
            (BatchModel { phase: BatchPhase::AwaitCommit, ..m }, BatchOutcome::Commit)
        },
        BatchPhase::AwaitRollback => (
            BatchModel { phase: BatchPhase::Finished, ..m },
            BatchOutcome::Failed,
        ),
        BatchPhase::AwaitCommit => if m.remaining > 0 {
            (BatchModel { phase: BatchPhase::AwaitBegin, ..m }, BatchOutcome::Begin)
        } else {
            (BatchModel { phase: BatchPhase::Finished, ..m }, BatchOutcome::Succeeded)
        },
        BatchPhase::Finished => (m, BatchOutcome::Failed),
    }
}

/// The next state and step after the last statement failed.
pub open spec fn model_on_err(m: BatchModel) -> (BatchModel, BatchOutcome) {
    match m.phase {
        BatchPhase::AwaitRow => (
            BatchModel { phase: BatchPhase::AwaitRollback, ..m },
            BatchOutcome::Rollback,
        ),
        _ => (BatchModel { phase: BatchPhase::Finished, ..m }, BatchOutcome::Failed),
    }
}

/// The states a batch can be in.
pub open spec fn model_valid(m: BatchModel) -> bool {
    &&& !(m.phase is Finished) ==> m.chunk > 0
    &&& m.phase is AwaitBegin ==> m.remaining > 0
    &&& m.phase is AwaitRow ==> m.chunk_left <= m.remaining
}

/// A measure that every step from a valid, unfinished state decreases.
pub open spec fn model_measure(m: BatchModel) -> nat {
    match m.phase {
        BatchPhase::Finished => 0,
        BatchPhase::AwaitRollback => 1,
        BatchPhase::AwaitBegin => 3 * m.remaining + 2,
        BatchPhase::AwaitCommit => 3 * m.remaining + 3,
        BatchPhase::AwaitRow => 3 * m.remaining + 4,
    }
}

/// The steps a batch takes from `m` when every statement succeeds.
pub open spec fn ok_trace(m: BatchModel) -> Seq<BatchOutcome>
    decreases model_measure(m),
{
    if m.phase is Finished || !model_valid(m) {
        seq![]
    } else {
        let (m2, o) = model_on_ok(m);
        seq![o] + ok_trace(m2)
    }
}

/// The state and first step of a batch of `n` rows in chunks of `c`.
pub open spec fn model_start(n: nat, c: nat) -> (BatchModel, BatchOutcome) {
    if n == 0 {
        (
            BatchModel { phase: BatchPhase::Finished, remaining: 0, chunk_left: 0, chunk: c },
            BatchOutcome::Succeeded,
        )
    } else {
        (
            BatchModel { phase: BatchPhase::AwaitBegin, remaining: n, chunk_left: 0, chunk: c },
            BatchOutcome::Begin,
        )
    }
}

/// Every step of a batch of `n` rows in chunks of `c` when all statements
/// succeed.
pub open spec fn batch_trace(n: nat, c: nat) -> Seq<BatchOutcome> {
    let (m, o) = model_start(n, c);
    seq![o] + ok_trace(m)
}

/// `k` row statements.
pub open spec fn rows_run(k: nat) -> Seq<BatchOutcome> {
    Seq::new(k, |i: int| BatchOutcome::Row)
}

/// The transactions that `n` rows in chunks of `c` make: per chunk of up
/// to `c` rows, `BEGIN`, the rows, `COMMIT`; then success.
pub open spec fn transactions(n: nat, c: nat) -> Seq<BatchOutcome>
    decreases n,
{
    if n == 0 || c == 0 {
        seq![BatchOutcome::Succeeded]
    } else {
        let k = min_nat(c, n);
        seq![BatchOutcome::Begin] + rows_run(k) + seq![BatchOutcome::Commit] + transactions(
            (n - k) as nat,
            c,
        )
    }
}

proof fn lemma_rows_then_commit(rem: nat, cl: nat, c: nat)
    requires
        c > 0,
        cl <= rem,
    ensures
        ok_trace(BatchModel { phase: BatchPhase::AwaitRow, remaining: rem, chunk_left: cl, chunk: c })
            == rows_run(cl) + seq![BatchOutcome::Commit] + ok_trace(
            BatchModel {
                phase: BatchPhase::AwaitCommit,
                remaining: (rem - cl) as nat,
                chunk_left: 0,
                chunk: c,
            },
        ),
    decreases cl,
{
    let m = BatchModel { phase: BatchPhase::AwaitRow, remaining: rem, chunk_left: cl, chunk: c };
    if cl == 0 {
        assert(rows_run(0) =~= seq![]);
        assert(ok_trace(m) == seq![BatchOutcome::Commit] + ok_trace(model_on_ok(m).0));
        assert(model_on_ok(m).0 == BatchModel {
            phase: BatchPhase::AwaitCommit,
            remaining: rem,
            chunk_left: 0,
            chunk: c,
        });
        assert(rows_run(cl) + seq![BatchOutcome::Commit] =~= seq![BatchOutcome::Commit]);
    } else {
        let m2 = BatchModel {
            phase: BatchPhase::AwaitRow,
            remaining: (rem - 1) as nat,
            chunk_left: (cl - 1) as nat,
            chunk: c,
        };
        assert(model_on_ok(m).0 == m2);
        lemma_rows_then_commit((rem - 1) as nat, (cl - 1) as nat, c);
        assert(ok_trace(m) == seq![BatchOutcome::Row] + ok_trace(m2));
        assert(rows_run(cl) =~= seq![BatchOutcome::Row] + rows_run((cl - 1) as nat));
        assert(((rem - 1) as nat - (cl - 1) as nat) as nat == (rem - cl) as nat);
        assert(ok_trace(m) =~= rows_run(cl) + seq![BatchOutcome::Commit] + ok_trace(
            BatchModel {
                phase: BatchPhase::AwaitCommit,
                remaining: (rem - cl) as nat,
                chunk_left: 0,
                chunk: c,
            },
        ));
    }
}

proof fn lemma_begin_trace(rem: nat, c: nat)
    requires
        c > 0,
        rem > 0,
    ensures
        seq![BatchOutcome::Begin] + ok_trace(
            BatchModel { phase: BatchPhase::AwaitBegin, remaining: rem, chunk_left: 0, chunk: c },
        ) == transactions(rem, c),
    decreases rem, 1nat,
{
    let b = BatchModel { phase: BatchPhase::AwaitBegin, remaining: rem, chunk_left: 0, chunk: c };
    let k = min_nat(c, rem);
    let r = BatchModel {
        phase: BatchPhase::AwaitRow,
        remaining: (rem - 1) as nat,
        chunk_left: (k - 1) as nat,
        chunk: c,
    };
    assert(model_on_ok(b).0 == r);
    assert(ok_trace(b) == seq![BatchOutcome::Row] + ok_trace(r));
    lemma_rows_then_commit((rem - 1) as nat, (k - 1) as nat, c);
    let rest = (rem - k) as nat;
    assert(((rem - 1) as nat - (k - 1) as nat) as nat == rest);
    assert(rows_run(k) =~= seq![BatchOutcome::Row] + rows_run((k - 1) as nat));
    if rest == 0 {
        let m = BatchModel { phase: BatchPhase::AwaitCommit, remaining: 0, chunk_left: 0, chunk: c };
        let f = BatchModel { phase: BatchPhase::Finished, remaining: 0, chunk_left: 0, chunk: c };
        assert(model_on_ok(m).0 == f);
        assert(ok_trace(f) == Seq::<BatchOutcome>::empty());
        assert(ok_trace(m) =~= seq![BatchOutcome::Succeeded]);
        assert(transactions(0, c) == seq![BatchOutcome::Succeeded]);
    } else {
        lemma_commit_trace_smaller(rest, c, rem);
    }
    assert(seq![BatchOutcome::Begin] + ok_trace(b) =~= transactions(rem, c));
}

proof fn lemma_commit_trace_smaller(rest: nat, c: nat, rem: nat)
    requires
        c > 0,
        0 < rest < rem,
    ensures
        ok_trace(BatchModel { phase: BatchPhase::AwaitCommit, remaining: rest, chunk_left: 0, chunk: c })
            == transactions(rest, c),
    decreases rem, 0nat,
{
    let m = BatchModel { phase: BatchPhase::AwaitCommit, remaining: rest, chunk_left: 0, chunk: c };
    let b = BatchModel { phase: BatchPhase::AwaitBegin, remaining: rest, chunk_left: 0, chunk: c };
    assert(model_on_ok(m).0 == b);
    lemma_begin_trace(rest, c);
    assert(ok_trace(m) == seq![BatchOutcome::Begin] + ok_trace(b));
}

/// When every statement succeeds, a batch of `n` rows in chunks of `c` runs
/// one transaction per chunk (`BEGIN`, up to `c` rows, `COMMIT`) and then
/// succeeds; an empty batch succeeds at once.
pub proof fn lemma_batch_all_ok(n: nat, c: nat)
    requires
        c > 0,
    ensures
        batch_trace(n, c) == transactions(n, c),
{
    if n == 0 {
        let f = BatchModel { phase: BatchPhase::Finished, remaining: 0, chunk_left: 0, chunk: c };
        assert(ok_trace(f) == Seq::<BatchOutcome>::empty());
        assert(batch_trace(n, c) =~= seq![BatchOutcome::Succeeded]);
    } else {
        lemma_begin_trace(n, c);
    }
}

/// A batch in a single transaction is the chunked batch with any chunk at
/// least as large as the batch: one `BEGIN`, every row, one `COMMIT`.
pub proof fn lemma_single_transaction(n: nat, c: nat)
    requires
        c >= n,
        c > 0,
    ensures
        transactions(n, c) == transactions(n, if n > 0 { n } else { 1 }),
        n > 0 ==> transactions(n, c) == seq![BatchOutcome::Begin] + rows_run(n) + seq![
            BatchOutcome::Commit,
            BatchOutcome::Succeeded,
        ],
{
    if n > 0 {
        assert(min_nat(c, n) == n);
        assert(min_nat(n, n) == n);
        assert(transactions(0, c) == seq![BatchOutcome::Succeeded]);
        assert(transactions(0, n) == seq![BatchOutcome::Succeeded]);
        assert(transactions(n, c) =~= seq![BatchOutcome::Begin] + rows_run(n) + seq![
            BatchOutcome::Commit,
            BatchOutcome::Succeeded,
        ]);
    }
}

/// A failed row makes the batch roll back, and a successful rollback ends
/// the batch as failed; a failed `BEGIN`, `COMMIT` or `ROLLBACK` ends it at
/// once.
pub proof fn lemma_row_failure_rolls_back(m: BatchModel)
    requires
        model_valid(m),
    ensures
        m.phase is AwaitRow ==> model_on_err(m).1 == BatchOutcome::Rollback && model_on_ok(
            model_on_err(m).0,
        ).1 == BatchOutcome::Failed && model_on_ok(model_on_err(m).0).0.phase is Finished,
        !(m.phase is AwaitRow) ==> model_on_err(m).1 == BatchOutcome::Failed
            && model_on_err(m).0.phase is Finished,
{
}


/// A batch in progress: the rows still to be sent and where the batch
/// stands.
pub struct BatchRun<V> {
    pending: Vec<Vec<V>>,
    chunk_size: usize,
    chunk_left: usize,
    phase: BatchPhase,
    failure: Option<DbError<V>>,
    rows: Ghost<Seq<Vec<V>>>,
}

impl<V> BatchRun<V> {
    /// The abstract state of the batch.
    pub closed spec fn model(&self) -> BatchModel {
        BatchModel {
            phase: self.phase,
            remaining: self.pending@.len(),
            chunk_left: self.chunk_left as nat,
            chunk: self.chunk_size as nat,
        }
    }

    /// All rows of the batch, in order.
    pub closed spec fn rows(&self) -> Seq<Vec<V>> {
        self.rows@
    }

    /// The error of the failed row, kept while rolling back.
    pub closed spec fn failure(&self) -> Option<DbError<V>> {
        self.failure
    }

    /// The rows not yet sent are the last ones of the batch, in order.
    pub closed spec fn wf(&self) -> bool {
        &&& model_valid(self.model())
        &&& self.pending@.len() <= self.rows@.len()
        &&& forall|i: int|
            0 <= i < self.pending@.len() ==> #[trigger] self.pending@[i] == self.rows@[self.rows@.len()
                - 1 - i]
        &&& self.phase is AwaitRollback ==> self.failure is Some
    }

    /// Starts a batch of `rows` in chunks of `chunk_size`: with no database
    /// open it fails with `NotOpened`; an empty batch succeeds at once;
    /// otherwise `BEGIN` is sent first.
    pub fn start(open: bool, rows: Vec<Vec<V>>, chunk_size: usize) -> (res: (BatchRun<V>, BatchStep<V>))
        requires
            !open || rows@.len() == 0 || chunk_size > 0,
        ensures
            res.0.wf(),
            res.0.rows() == rows@,
            !open ==> res.1 == BatchStep::<V>::Done(Err(DbError::NotOpened)) && res.0.model().phase is Finished,
            open ==> (res.0.model(), step_kind(res.1)) == model_start(rows@.len(), chunk_size as nat),
            open ==> (res.1 is Run ==> res.1 == BatchStep::<V>::Run(BatchStatement::Begin)),
            open && rows@.len() == 0 ==> res.1 == BatchStep::<V>::Done(Ok(())),
    {
        let ghost orig = rows@;
        let mut rows = rows;
        let mut pending: Vec<Vec<V>> = Vec::new();
        while rows.len() > 0
            invariant
                rows@.len() + pending@.len() == orig.len(),
                rows@ == orig.take(rows@.len() as int),
                forall|i: int|
                    0 <= i < pending@.len() ==> #[trigger] pending@[i] == orig[orig.len() - 1 - i],
            decreases rows@.len(),
        {
            let r = rows.pop().unwrap();
            pending.push(r);
            assert(rows@ =~= orig.take(rows@.len() as int));
        }
        if !open {
            let run = BatchRun {
                pending,
                chunk_size,
                chunk_left: 0,
                phase: BatchPhase::Finished,
                failure: None,
                rows: Ghost(orig),
            };
            return (run, BatchStep::Done(Err(DbError::NotOpened)));
        }
        if pending.len() == 0 {
            let run = BatchRun {
                pending,
                chunk_size,
                chunk_left: 0,
                phase: BatchPhase::Finished,
                failure: None,
                rows: Ghost(orig),
            };
            (run, BatchStep::Done(Ok(())))
        } else {
            let run = BatchRun {
                pending,
                chunk_size,
                chunk_left: 0,
                phase: BatchPhase::AwaitBegin,
                failure: None,
                rows: Ghost(orig),
            };
            (run, BatchStep::Run(BatchStatement::Begin))
        }
    }

    fn next_row(&mut self) -> (p: Vec<V>)
        requires
            old(self).wf(),
            old(self).pending@.len() > 0,
        ensures
            final(self).pending@ == old(self).pending@.drop_last(),
            final(self).rows == old(self).rows,
            final(self).chunk_size == old(self).chunk_size,
            final(self).chunk_left == old(self).chunk_left,
            final(self).phase == old(self).phase,
            final(self).failure == old(self).failure,
            p == old(self).rows@[old(self).rows@.len() - old(self).pending@.len()],
    {
        let p = self.pending.pop().unwrap();
        p
    }

    /// Takes the outcome of the statement last sent and says what to do
    /// next (see [`model_on_ok`] and [`model_on_err`]). Rows are sent in
    /// order; a failed row's error is kept through the rollback and then
    /// returned, unless the rollback fails, whose error is returned instead;
    /// any other failure ends the batch with its own error.
    pub fn on_result(&mut self, outcome: Result<(), DbError<V>>) -> (step: BatchStep<V>)
        requires
            old(self).wf(),
            !(old(self).model().phase is Finished),
        ensures
            final(self).wf(),
            final(self).rows() == old(self).rows(),
            outcome is Ok ==> (final(self).model(), step_kind(step)) == model_on_ok(old(self).model()),
            outcome is Err ==> (final(self).model(), step_kind(step)) == model_on_err(old(self).model()),
            step matches BatchStep::Run(BatchStatement::Row(p)) ==> p == old(self).rows()[old(
                self,
            ).rows().len() - old(self).model().remaining],
            old(self).model().phase is AwaitRow ==> (outcome matches Err(e) ==> final(self).failure()
                == Some(e)),
            !(old(self).model().phase is AwaitRow) ==> (outcome matches Err(e) ==> step
                == BatchStep::<V>::Done(Err(e))),
            outcome is Ok && old(self).model().phase is AwaitRollback ==> step
                == BatchStep::<V>::Done(Err(old(self).failure()->0)),
    {
        match outcome {
            Ok(()) => match self.phase {
                BatchPhase::AwaitBegin => {
                    let k = if self.chunk_size <= self.pending.len() {
                        self.chunk_size
                    } else {
                        self.pending.len()
                    };
                    self.chunk_left = k - 1;
                    self.phase = BatchPhase::AwaitRow;
                    let p = self.next_row();
                    BatchStep::Run(BatchStatement::Row(p))
                },
                BatchPhase::AwaitRow => {
                    if self.chunk_left > 0 {
                        self.chunk_left = self.chunk_left - 1;
                        let p = self.next_row();
                        BatchStep::Run(BatchStatement::Row(p))
                    } else {
                        self.phase = BatchPhase::AwaitCommit;
                        BatchStep::Run(BatchStatement::Commit)
                    }
                },
                BatchPhase::AwaitRollback => {
                    self.phase = BatchPhase::Finished;
                    let e = self.failure.take().unwrap();
                    BatchStep::Done(Err(e))
                },
                BatchPhase::AwaitCommit => {
                    if self.pending.len() > 0 {
                        self.phase = BatchPhase::AwaitBegin;
                        BatchStep::Run(BatchStatement::Begin)
                    } else {
                        self.phase = BatchPhase::Finished;
                        BatchStep::Done(Ok(()))
                    }
                },
                BatchPhase::Finished => BatchStep::Done(Ok(())),
            },
            Err(e) => match self.phase {
                BatchPhase::AwaitRow => {
                    self.phase = BatchPhase::AwaitRollback;
                    self.failure = Some(e);
                    BatchStep::Run(BatchStatement::Rollback)
                },
                _ => {
                    self.phase = BatchPhase::Finished;
                    BatchStep::Done(Err(e))
                },
            },
        }
    }
}

/// `insert_batch`: all rows in one transaction (with no database open it
/// fails with `NotOpened`; with no rows it succeeds at once).
pub fn insert_batch<V>(db: &Database<V>, rows: Vec<Vec<V>>) -> (res: (BatchRun<V>, BatchStep<V>))
    ensures
        res.0.wf(),
        res.0.rows() == rows@,
        db.uid() is None ==> res.1 == BatchStep::<V>::Done(Err(DbError::NotOpened)),
        db.uid() is Some ==> (res.0.model(), step_kind(res.1)) == model_start(
            rows@.len(),
            if rows@.len() > 0 { rows@.len() } else { 1 },
        ),
        db.uid() is Some && res.1 is Run ==> res.1 == BatchStep::<V>::Run(BatchStatement::Begin),
{
    let n = rows.len();
    let c = if n > 0 { n } else { 1 };
    BatchRun::start(is_db_open(db), rows, c)
}

/// `insert_batch_chunked`: one transaction per chunk of `chunk_size` rows.
/// With no database open it fails with `NotOpened`, and with no rows it
/// succeeds at once, whatever the chunk size; rows on an open database need
/// a chunk size above zero.
pub fn insert_batch_chunked<V>(db: &Database<V>, rows: Vec<Vec<V>>, chunk_size: usize) -> (res: (
    BatchRun<V>,
    BatchStep<V>,
))
    requires
        db.uid() is None || rows@.len() == 0 || chunk_size > 0,
    ensures
        res.0.wf(),
        res.0.rows() == rows@,
        db.uid() is None ==> res.1 == BatchStep::<V>::Done(Err(DbError::NotOpened)),
        db.uid() is Some && rows@.len() == 0 ==> res.1 == BatchStep::<V>::Done(Ok(())),
        db.uid() is Some ==> (res.0.model(), step_kind(res.1)) == model_start(
            rows@.len(),
            chunk_size as nat,
        ),
        db.uid() is Some && res.1 is Run ==> res.1 == BatchStep::<V>::Run(BatchStatement::Begin),
{
    BatchRun::start(is_db_open(db), rows, chunk_size)
}

} // verus!
