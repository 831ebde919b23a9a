//! The database session: which database is open (the id the worker handed
//! out on `open`) and the request counter that numbers statements.
//!
//! Each client operation (`open`, `close`, `exec`, `query`) awaits the
//! worker between its decisions; each decision is a function from the
//! session to the next command to send, and the worker's reply comes back
//! through a second function where one is needed.

use vstd::prelude::*;

use crate::modules::sqlite_core::error::DbError;
use crate::modules::sqlite_core::protocol::{
    exec_args, memory_open_command, open_command, Command, ExecArgs, RowMode, MEMORY_DATABASE,
};

verus! {

/// The client's session with the worker.
///
/// `V` is the type of the values the worker hands out (the database id) and
/// of the parameters bound to statements.
pub struct Database<V> {
    db_uid: Option<V>,
    counter: u32,
}

/// The counter value that follows `c`; the counter wraps around.
pub open spec fn next_counter(c: u32) -> u32 {
    if c == u32::MAX {
        0
    } else {
        (c + 1) as u32
    }
}

impl<V> Database<V> {
    /// The id of the open database, if one is open.
    pub closed spec fn uid(&self) -> Option<V> {
        self.db_uid
    }

    /// The id the next statement will carry.
    pub closed spec fn counter(&self) -> u32 {
        self.counter
    }

    /// A session with no database open and the counter at zero.
    pub fn new() -> (d: Self)
        ensures
            d.uid() is None,
            d.counter() == 0,
    {
        Database { db_uid: None, counter: 0 }
    }
}

/// Whether a database is open.
pub fn is_db_open<V>(db: &Database<V>) -> (b: bool)
    ensures
        b == db.uid() is Some,
{
    db.db_uid.is_some()
}

/// Whether a database is open (the name exported to JavaScript).
pub fn is_open<V>(db: &Database<V>) -> (b: bool)
    ensures
        b == db.uid() is Some,
{
    is_db_open(db)
}

/// Takes the next statement id: returns the counter and advances it,
/// wrapping around after `u32::MAX`.
pub fn next_message_id<V>(db: &mut Database<V>) -> (id: u32)
    ensures
        id == old(db).counter(),
        final(db).counter() == next_counter(old(db).counter()),
        final(db).uid() == old(db).uid(),
{
    let id = db.counter;
    db.counter = if db.counter == u32::MAX {
        0
    } else {
        db.counter + 1
    };
    id
}

/// The id of the open database, if any.
pub fn get_db_uid<V>(db: &Database<V>) -> (r: Option<&V>)
    ensures
        r is Some == db.uid() is Some,
        r matches Some(u) ==> db.uid() == Some(*u),
{
    db.db_uid.as_ref()
}

/// The id of the open database, or `null` when none is open.
pub fn db_id<'a, V>(db: &'a Database<V>, null: &'a V) -> (r: &'a V)
    ensures
        *r == match db.uid() {
            Some(u) => u,
            None => *null,
        },
{
    match &db.db_uid {
        Some(u) => u,
        None => null,
    }
}

/// What closing does: the session forgets its database and keeps its
/// counter; a `close` for the database that was open is sent, and nothing
/// when none was.
pub open spec fn closes<V>(before: Database<V>, after: Database<V>, c: Option<Command<V>>) -> bool {
    &&& after.uid() is None
    &&& after.counter() == before.counter()
    &&& c is Some == before.uid() is Some
    &&& c matches Some(cmd) ==> cmd == (Command::Close { db_id: before.uid()->0 })
}

/// Closing: forgets the open database and returns the `close` command for
/// it, or nothing when no database was open. The session counts as closed
/// from here on, whatever the worker replies.
pub fn close<V>(db: &mut Database<V>) -> (c: Option<Command<V>>)
    ensures
        closes(*old(db), *final(db), c),
{
    match db.db_uid.take() {
        Some(uid) => Some(Command::Close { db_id: uid }),
        None => None,
    }
}

/// The commands that opening a database sends, in order.
pub struct OpenPlan<V> {
    /// The `close` for the database that was open, sent first.
    pub close_first: Option<Command<V>>,
    /// The `open` command itself.
    pub open: Command<V>,
}

/// Opening `database_name` on OPFS: a database that is already open is
/// closed first (and the session forgets it at once); then `open` is sent
/// as the [`OpenStage::Persistent`] attempt. The worker's answer goes to
/// [`on_open_reply`], which records the new id or falls back to a
/// memory-only database.
pub fn open<V>(db: &mut Database<V>, database_name: &str) -> (p: OpenPlan<V>)
    ensures
        final(db).uid() is None,
        final(db).counter() == old(db).counter(),
        p.close_first is Some == old(db).uid() is Some,
        p.close_first matches Some(cmd) ==> cmd == (Command::Close { db_id: old(db).uid()->0 }),
        p.open matches Command::Open { filename, vfs } && filename@ == database_name@ && vfs is Some && vfs->0@ == "opfs"@,
{
    let close_first = close(db);
    OpenPlan { close_first, open: open_command(database_name) }
}

/// What the client reads of the worker's reply to `open`.
pub enum OpenReply<V> {
    /// The reply is not an object.
    NotObject,
    /// The reply is an object.
    Object {
        /// `reply.result.dbId`, when `reply.result` is an object (an absent
        /// property reads as `undefined`, which is a value too).
        nested: Option<V>,
        /// `reply.dbId`.
        top: V,
    },
}

/// The database id an `open` reply carries: `reply.result.dbId` when
/// `reply.result` is an object, else `reply.dbId`, else `null`.
pub open spec fn open_reply_id<V>(reply: OpenReply<V>, null: V) -> V {
    match reply {
        OpenReply::NotObject => null,
        OpenReply::Object { nested, top } => match nested {
            Some(n) => n,
            None => top,
        },
    }
}

/// What a successful `open` reply does: the session holds the id the reply
/// carries, and keeps its counter.
pub open spec fn opens<V>(before: Database<V>, after: Database<V>, reply: OpenReply<V>, null: V) -> bool {
    &&& after.uid() == Some(open_reply_id(reply, null))
    &&& after.counter() == before.counter()
}

/// Records the database id of a successful `open` reply; the database is
/// open from here on.
pub fn complete_open<V>(db: &mut Database<V>, reply: OpenReply<V>, null: V)
    ensures
        opens(*old(db), *final(db), reply, null),
{
    let uid = match reply {
        OpenReply::NotObject => null,
        OpenReply::Object { nested, top } => match nested {
            Some(n) => n,
            None => top,
        },
    };
    db.db_uid = Some(uid);
}

/// Which attempt of opening a database is under way.
#[derive(Clone, Copy)]
pub enum OpenStage {
    /// The database file on OPFS.
    Persistent,
    /// An in-memory database, after OPFS refused.
    MemoryOnly,
}

/// What follows the worker's answer to an `open` attempt.
pub enum OpenStep<V> {
    /// Send `command` as the attempt `stage`.
    Send { stage: OpenStage, command: Command<V> },
    /// Opening is over, with this result.
    Finished(Result<(), DbError<V>>),
}

/// What the answer to an `open` attempt does: a reply (`Ok`) opens the
/// database with the id it carries; an error reply (`Err`) to the OPFS
/// attempt leaves the session closed and asks for the memory-only attempt,
/// and one to the memory-only attempt ends opening with that error.
pub open spec fn open_answered<V>(
    before: Database<V>,
    after: Database<V>,
    stage: OpenStage,
    reply: Result<OpenReply<V>, V>,
    null: V,
    s: OpenStep<V>,
) -> bool {
    match reply {
        Ok(r) => opens(before, after, r, null) && s matches OpenStep::Finished(Ok(())),
        Err(e) => {
            &&& after == before
            &&& match stage {
                OpenStage::Persistent => s matches OpenStep::Send {
                    stage: OpenStage::MemoryOnly,
                    command: Command::Open { filename, vfs },
                } && filename@ == MEMORY_DATABASE@ && vfs is None,
                OpenStage::MemoryOnly => s == OpenStep::<V>::Finished(Err(DbError::Worker(e))),
            }
        },
    }
}

/// Takes the worker's answer to the `open` attempt `stage`: records the
/// database id of a reply, or, when OPFS refused, falls back to a
/// memory-only database; a refused memory-only attempt fails with the
/// worker's error.
pub fn on_open_reply<V>(db: &mut Database<V>, stage: OpenStage, reply: Result<OpenReply<V>, V>, null: V) -> (s:
    OpenStep<V>)
    ensures
        open_answered(*old(db), *final(db), stage, reply, null, s),
{
    match reply {
        Ok(r) => {
            complete_open(db, r, null);
            OpenStep::Finished(Ok(()))
        },
        Err(e) => match stage {
            OpenStage::Persistent => OpenStep::Send {
                stage: OpenStage::MemoryOnly,
                command: memory_open_command(),
            },
            OpenStage::MemoryOnly => OpenStep::Finished(Err(DbError::Worker(e))),
        },
    }
}

/// The `exec` arguments of a statement on the open database: the given
/// counter value, the SQL, row mode and column-name flag, no `dbId`, and the
/// parameters when there are any.
pub open spec fn statement_sent<V>(
    a: ExecArgs<V>,
    id: u32,
    sql: Seq<char>,
    mode: Option<RowMode>,
    column_names: bool,
    params: Seq<V>,
) -> bool {
    &&& a.id == id
    &&& a.sql@ == sql
    &&& a.row_mode == mode
    &&& a.db_id is None
    &&& a.column_names == column_names
    &&& (a.bind is None <==> params.len() == 0)
    &&& (a.bind matches Some(b) ==> b@ == params)
}

/// What issuing a statement does: with no database open it fails with
/// `NotOpened` and changes nothing; otherwise it takes the next counter value
/// and produces the `exec` command described by [`statement_sent`].
pub open spec fn statement_issued<V>(
    before: Database<V>,
    after: Database<V>,
    r: Result<Command<V>, DbError<V>>,
    sql: Seq<char>,
    mode: Option<RowMode>,
    column_names: bool,
    params: Seq<V>,
) -> bool {
    &&& after.uid() == before.uid()
    &&& before.uid() is None ==> {
        &&& r matches Err(DbError::NotOpened)
        &&& after.counter() == before.counter()
    }
    &&& before.uid() is Some ==> {
        &&& after.counter() == next_counter(before.counter())
        &&& r matches Ok(Command::Exec(a))
        &&& statement_sent(a, before.counter(), sql, mode, column_names, params)
    }
}

/// Builds the `exec` command of a statement on the open database.
pub fn statement_request<V>(
    db: &mut Database<V>,
    sql: &str,
    params: Vec<V>,
    mode: Option<RowMode>,
    column_names: bool,
) -> (r: Result<Command<V>, DbError<V>>)
    ensures
        statement_issued(*old(db), *final(db), r, sql@, mode, column_names, params@),
{
    if !is_db_open(db) {
        return Err(DbError::NotOpened);
    }
    let id = next_message_id(db);
    Ok(Command::Exec(exec_args(id, sql, mode, None, column_names, params)))
}

/// `exec`: a statement that returns no rows (no `rowMode`).
pub fn exec<V>(db: &mut Database<V>, sql: &str, params: Vec<V>) -> (r: Result<
    Command<V>,
    DbError<V>,
>)
    ensures
        statement_issued(*old(db), *final(db), r, sql@, None, false, params@),
{
    statement_request(db, sql, params, None, false)
}

/// `query`: a statement whose rows come back as objects
/// (`rowMode: "object"`).
pub fn query<V>(db: &mut Database<V>, sql: &str, params: Vec<V>) -> (r: Result<
    Command<V>,
    DbError<V>,
>)
    ensures
        statement_issued(*old(db), *final(db), r, sql@, Some(RowMode::Object), false, params@),
{
    statement_request(db, sql, params, Some(RowMode::Object), false)
}


// ==================== LAWS ====================

/// The counter after `k` statements starting from `c`.
pub open spec fn counter_after(c: u32, k: nat) -> u32
    decreases k,
{
    if k == 0 {
        c
    } else {
        next_counter(counter_after(c, (k - 1) as nat))
    }
}

/// The counter counts modulo 2^32: after `k` statements it stands at
/// `(c + k) mod 2^32`.
pub proof fn lemma_counter_after(c: u32, k: nat)
    ensures
        counter_after(c, k) as int == (c as int + k) % 0x1_0000_0000,
    decreases k,
{
    if k > 0 {
        lemma_counter_after(c, (k - 1) as nat);
        let prev = counter_after(c, (k - 1) as nat);
        assert(prev as int == (c as int + (k - 1)) % 0x1_0000_0000);
        assert(counter_after(c, k) as int == (c as int + k) % 0x1_0000_0000) by (nonlinear_arith)
            requires
                prev as int == (c as int + (k - 1)) % 0x1_0000_0000,
                counter_after(c, k) == next_counter(prev),
                next_counter(prev) == (if prev == u32::MAX {
                    0
                } else {
                    (prev + 1) as u32
                }),
                k > 0,
                0 <= c < 0x1_0000_0000,
        ;
    }
}

/// Statement ids are unique within any window of 2^32 consecutive
/// statements, so each reply can be matched to its request.
pub proof fn lemma_ids_distinct(c: u32, i: nat, j: nat)
    requires
        i < j < 0x1_0000_0000,
    ensures
        counter_after(c, i) != counter_after(c, j),
{
    lemma_counter_after(c, i);
    lemma_counter_after(c, j);
    assert((c as int + i) % 0x1_0000_0000 != (c as int + j) % 0x1_0000_0000) by (nonlinear_arith)
        requires
            i < j < 0x1_0000_0000,
            0 <= c < 0x1_0000_0000,
    ;
}

/// Once the session is closed, every statement is refused with
/// `NotOpened` and leaves the session as it was.
pub proof fn lemma_closed_session_refuses<V>(
    before: Database<V>,
    after: Database<V>,
    r: Result<Command<V>, DbError<V>>,
    sql: Seq<char>,
    mode: Option<RowMode>,
    column_names: bool,
    params: Seq<V>,
)
    requires
        before.uid() is None,
        statement_issued(before, after, r, sql, mode, column_names, params),
    ensures
        r matches Err(DbError::NotOpened),
        after.uid() == before.uid(),
        after.counter() == before.counter(),
{
}

/// On an open session each statement takes the current counter value as
/// its id and advances the counter; the session stays open.
pub proof fn lemma_open_session_numbers<V>(
    before: Database<V>,
    after: Database<V>,
    r: Result<Command<V>, DbError<V>>,
    sql: Seq<char>,
    mode: Option<RowMode>,
    column_names: bool,
    params: Seq<V>,
)
    requires
        before.uid() is Some,
        statement_issued(before, after, r, sql, mode, column_names, params),
    ensures
        r matches Ok(Command::Exec(a)) && a.id == before.counter(),
        after.counter() == counter_after(before.counter(), 1),
        after.uid() is Some,
{
    assert(counter_after(before.counter(), 0) == before.counter());
}


/// The database that `close` targets is the one the last `open` reply
/// named; after closing, statements are refused again.
pub proof fn lemma_close_targets_opened<V>(
    d0: Database<V>,
    d1: Database<V>,
    d2: Database<V>,
    reply: OpenReply<V>,
    null: V,
    c: Option<Command<V>>,
)
    requires
        opens(d0, d1, reply, null),
        closes(d1, d2, c),
    ensures
        c == Some(Command::<V>::Close { db_id: open_reply_id(reply, null) }),
        d2.uid() is None,
        d2.counter() == d0.counter(),
{
}

/// Where OPFS is unavailable, opening still succeeds: after the OPFS
/// attempt is refused, the memory-only attempt it leads to opens the
/// database once the worker replies.
pub proof fn lemma_open_falls_back_to_memory<V>(
    d0: Database<V>,
    d1: Database<V>,
    d2: Database<V>,
    refusal: V,
    reply: OpenReply<V>,
    null: V,
    s1: OpenStep<V>,
    s2: OpenStep<V>,
)
    requires
        open_answered(d0, d1, OpenStage::Persistent, Err(refusal), null, s1),
        s1 matches OpenStep::Send { stage, .. } && open_answered(d1, d2, stage, Ok(reply), null, s2),
    ensures
        s1 matches OpenStep::Send { stage, command: Command::Open { filename, vfs } } && stage
            is MemoryOnly && filename@ == MEMORY_DATABASE@ && vfs is None,
        d2.uid() == Some(open_reply_id(reply, null)),
        d2.counter() == d0.counter(),
        s2 matches OpenStep::Finished(Ok(())),
{
}

/// A completed `open` or `close` call of the client, as far as the session
/// is concerned.
pub enum SessionCall {
    /// `open(name)`, which returned `Ok(())` when `succeeded` holds.
    Open { succeeded: bool },
    /// `close()`.
    Close,
}

/// What a completed call does to the session: the counter is untouched; a
/// database is open afterwards exactly when the call was an `open` that
/// succeeded.
pub open spec fn call_effect<V>(before: Database<V>, after: Database<V>, call: SessionCall) -> bool {
    &&& after.counter() == before.counter()
    &&& match call {
        SessionCall::Close => after.uid() is None,
        SessionCall::Open { succeeded } => (after.uid() is Some <==> succeeded),
    }
}

/// `close` has the effect of a `close` call.
pub proof fn lemma_close_effect<V>(before: Database<V>, after: Database<V>, c: Option<Command<V>>)
    requires
        closes(before, after, c),
    ensures
        call_effect(before, after, SessionCall::Close),
{
}

proof fn lemma_refused_attempts_keep_session<V>(
    ds: Seq<Database<V>>,
    stages: Seq<OpenStage>,
    replies: Seq<Result<OpenReply<V>, V>>,
    steps: Seq<OpenStep<V>>,
    null: V,
    j: int,
)
    requires
        0 <= j < ds.len(),
        ds.len() == replies.len() + 1,
        stages.len() == replies.len(),
        steps.len() == replies.len(),
        forall|i: int|
            0 <= i < replies.len() ==> open_answered(
                ds[i],
                ds[i + 1],
                stages[i],
                #[trigger] replies[i],
                null,
                steps[i],
            ),
        forall|i: int| 0 <= i < replies.len() - 1 ==> #[trigger] steps[i] is Send,
    ensures
        j < ds.len() - 1 ==> ds[j] == ds[0],
        j == ds.len() - 1 && j > 0 ==> ds[j - 1] == ds[0],
    decreases j,
{
    if j > 0 {
        lemma_refused_attempts_keep_session(ds, stages, replies, steps, null, j - 1);
        if j - 1 < replies.len() - 1 {
            assert(open_answered(ds[j - 1], ds[j], stages[j - 1], replies[j - 1], null, steps[j - 1]));
            assert(steps[j - 1] is Send);
        }
    }
}

/// A completed `open` call has the effect of an `open` call that succeeded
/// exactly when it returned `Ok(())`: `d0` is the session before the call,
/// `ds[0]` the session after [`open`], and each answer of the worker takes
/// `ds[i]` to `ds[i + 1]` through [`on_open_reply`], every step but the last
/// asking for another attempt and the last finishing with `r`. A call that
/// failed before any answer (closing the old database failed) leaves
/// `ds[0]`.
pub proof fn lemma_open_effect<V>(
    d0: Database<V>,
    ds: Seq<Database<V>>,
    stages: Seq<OpenStage>,
    replies: Seq<Result<OpenReply<V>, V>>,
    steps: Seq<OpenStep<V>>,
    null: V,
    r: Result<(), DbError<V>>,
)
    requires
        ds.len() == replies.len() + 1,
        stages.len() == replies.len(),
        steps.len() == replies.len(),
        ds[0].uid() is None,
        ds[0].counter() == d0.counter(),
        forall|i: int|
            0 <= i < replies.len() ==> open_answered(
                ds[i],
                ds[i + 1],
                stages[i],
                #[trigger] replies[i],
                null,
                steps[i],
            ),
        forall|i: int| 0 <= i < replies.len() - 1 ==> #[trigger] steps[i] is Send,
        replies.len() == 0 ==> r is Err,
        replies.len() > 0 ==> steps.last() == OpenStep::<V>::Finished(r),
    ensures
        call_effect(d0, ds.last(), SessionCall::Open { succeeded: r is Ok }),
{
    let n = replies.len() as int;
    if n > 0 {
        lemma_refused_attempts_keep_session(ds, stages, replies, steps, null, n);
        assert(open_answered(ds[n - 1], ds[n], stages[n - 1], replies[n - 1], null, steps[n - 1]));
    }
}

/// Whether a database is open depends on the last `open`/`close` call
/// alone: starting from a fresh session, after any history of completed
/// calls a database is open exactly when the last call was an `open` that
/// succeeded, and the statement counter is where it started.
pub proof fn lemma_open_state_follows_history<V>(ds: Seq<Database<V>>, h: Seq<SessionCall>)
    requires
        ds.len() == h.len() + 1,
        ds[0].uid() is None,
        forall|i: int| 0 <= i < h.len() ==> call_effect(ds[i], ds[i + 1], #[trigger] h[i]),
    ensures
        ds.last().uid() is Some <==> (h.len() > 0 && h.last() == SessionCall::Open { succeeded: true }),
        ds.last().counter() == ds[0].counter(),
    decreases h.len(),
{
    if h.len() > 0 {
        let n = h.len() - 1;
        lemma_open_state_follows_history(ds.take(n + 1), h.take(n));
        assert(call_effect(ds[n], ds[n + 1], h[n]));
        assert(ds.take(n + 1).last() == ds[n]);
    }
}

} // verus!
