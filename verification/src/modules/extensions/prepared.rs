//! Prepared statements: a statement is prepared once per SQL text (the
//! worker's statement id is cached) and then executed with parameters.

use vstd::prelude::*;

use crate::modules::extensions::cache::Cache;
use crate::modules::extensions::queries::{
    converted_rows, extract_column_names, objects_view, opt_rows_view, rows_reply, strings_of,
    RowsReply,
};
use crate::modules::sqlite_core::database::{is_db_open, next_counter, next_message_id, Database};
use crate::modules::sqlite_core::error::DbError;
use crate::modules::sqlite_core::protocol::{bind_list, Command};

verus! {

/// A statement prepared by the worker, executed by its statement id.
pub struct PreparedStatement {
    id: i32,
    sql: String,
}

/// What preparing a statement does next.
pub enum PrepareStep<V> {
    /// The SQL was prepared before: its cached statement is ready.
    Ready(PreparedStatement),
    /// Send `prepare`; the reply's `result.stmtId` (or else `default_id`,
    /// the request's own id) becomes the statement id.
    Send { request: Command<V>, default_id: i32 },
}

/// The statement id a `prepare` reply gives: `result.stmtId` when the reply
/// has a `result` object whose `stmtId` is a number (`Some(Some(n))`, with
/// the number already truncated to `i32`), else the request's own id.
pub open spec fn reply_statement_id(reply: Option<Option<i32>>, default_id: i32) -> i32 {
    match reply {
        Some(Some(n)) => n,
        _ => default_id,
    }
}

/// Reads the statement id out of a `prepare` reply.
pub fn extract_stmt_id(reply: Option<Option<i32>>, default_id: i32) -> (id: i32)
    ensures
        id == reply_statement_id(reply, default_id),
{
    match reply {
        Some(Some(n)) => n,
        _ => default_id,
    }
}

/// What preparing `sql` does: with no database open it fails with
/// `NotOpened` and changes nothing; a statement cached for the same SQL is
/// reused without contacting the worker or taking an id; otherwise a
/// `prepare` request is built with the next statement id (as `i32`), which
/// is also the fallback statement id.
pub open spec fn prepare_outcome<V>(
    before: Database<V>,
    after: Database<V>,
    cache: Map<Seq<char>, i32>,
    sql: Seq<char>,
    r: Result<PrepareStep<V>, DbError<V>>,
) -> bool {
    &&& after.uid() == before.uid()
    &&& before.uid() is None ==> {
        &&& r matches Err(DbError::NotOpened)
        &&& after.counter() == before.counter()
    }
    &&& before.uid() is Some && cache.contains_key(sql) ==> {
        &&& r matches Ok(PrepareStep::Ready(s))
        &&& s.statement_id() == cache[sql]
        &&& s.sql_text() == sql
        &&& after.counter() == before.counter()
    }
    &&& before.uid() is Some && !cache.contains_key(sql) ==> {
        &&& after.counter() == next_counter(before.counter())
        &&& r matches Ok(PrepareStep::Send { request, default_id })
        &&& default_id == before.counter() as i32
        &&& request matches Command::Prepare { statement_id, sql: text }
        &&& statement_id == default_id
        &&& text@ == sql
    }
}

/// Preparing the same SQL again after a prepare completed reuses the
/// statement id of the first, without contacting the worker or taking a
/// statement id.
pub proof fn lemma_prepare_reuses_statement<V>(
    cache0: Map<Seq<char>, i32>,
    cache1: Map<Seq<char>, i32>,
    first: PreparedStatement,
    sql: Seq<char>,
    before: Database<V>,
    after: Database<V>,
    r: Result<PrepareStep<V>, DbError<V>>,
)
    requires
        first.sql_text() == sql,
        cache1 == cache0.insert(sql, first.statement_id()),
        before.uid() is Some,
        prepare_outcome(before, after, cache1, sql, r),
    ensures
        r matches Ok(PrepareStep::Ready(s)) && s.statement_id() == first.statement_id(),
        after.counter() == before.counter(),
{
}

/// A change of the statement cache that preparing makes: none, or a
/// statement completed for SQL that was not cached yet (its `prepare`
/// missed the cache, and nothing cached that SQL in between).
pub open spec fn prepare_completed(c0: Map<Seq<char>, i32>, c1: Map<Seq<char>, i32>) -> bool {
    ||| c1 == c0
    ||| exists|k: Seq<char>, v: i32| !c0.contains_key(k) && c1 == #[trigger] c0.insert(k, v)
}

proof fn lemma_cached_id_persists(cs: Seq<Map<Seq<char>, i32>>, sql: Seq<char>, id: i32, j: int)
    requires
        0 <= j < cs.len(),
        cs[0].contains_key(sql),
        cs[0][sql] == id,
        forall|i: int| 0 <= i < cs.len() - 1 ==> prepare_completed(#[trigger] cs[i], cs[i + 1]),
    ensures
        cs[j].contains_key(sql),
        cs[j][sql] == id,
    decreases j,
{
    if j > 0 {
        lemma_cached_id_persists(cs, sql, id, j - 1);
        assert(prepare_completed(cs[j - 1], cs[j]));
        if cs[j] != cs[j - 1] {
            let (k, v) = choose|k: Seq<char>, v: i32|
                !cs[j - 1].contains_key(k) && cs[j] == #[trigger] cs[j - 1].insert(k, v);
            assert(k != sql);
        }
    }
}

/// Once `sql` is prepared, preparing it again reuses its statement id, with
/// no request to the worker and no statement id taken, however many other
/// statements were prepared since (as long as the cache was not cleared):
/// `cs` are the cache's states from the first completion on.
pub proof fn lemma_prepare_cache_persists<V>(
    cs: Seq<Map<Seq<char>, i32>>,
    first: PreparedStatement,
    sql: Seq<char>,
    before: Database<V>,
    after: Database<V>,
    r: Result<PrepareStep<V>, DbError<V>>,
)
    requires
        cs.len() >= 1,
        first.sql_text() == sql,
        cs[0].contains_key(sql),
        cs[0][sql] == first.statement_id(),
        forall|i: int| 0 <= i < cs.len() - 1 ==> prepare_completed(#[trigger] cs[i], cs[i + 1]),
        before.uid() is Some,
        prepare_outcome(before, after, cs.last(), sql, r),
    ensures
        r matches Ok(PrepareStep::Ready(s)) && s.statement_id() == first.statement_id(),
        after.counter() == before.counter(),
{
    lemma_cached_id_persists(cs, sql, first.statement_id(), cs.len() - 1);
}

impl PreparedStatement {
    /// The worker's id of this statement.
    pub closed spec fn statement_id(&self) -> i32 {
        self.id
    }

    /// The SQL text of this statement.
    pub closed spec fn sql_text(&self) -> Seq<char> {
        self.sql@
    }

    /// Preparing `sql`: fails with `NotOpened` (changing nothing) when no
    /// database is open; a cached statement for the same SQL is reused
    /// without contacting the worker; otherwise a `prepare` request is built
    /// with the next statement id (as `i32`).
    pub fn prepare<V>(db: &mut Database<V>, cache: &Cache<i32>, sql: &str) -> (r: Result<
        PrepareStep<V>,
        DbError<V>,
    >)
        requires
            cache.wf(),
        ensures
            prepare_outcome(*old(db), *final(db), cache@, sql@, r),
    {
        if !is_db_open(db) {
            return Err(DbError::NotOpened);
        }
        match cache.get(sql) {
            Some(id) => Ok(PrepareStep::Ready(PreparedStatement { id: *id, sql: sql.to_owned() })),
            None => {
                let id = next_message_id(db) as i32;
                Ok(
                    PrepareStep::Send {
                        request: Command::Prepare { statement_id: id, sql: sql.to_owned() },
                        default_id: id,
                    },
                )
            },
        }
    }

    /// Finishes preparing `sql` from the worker's reply: the statement id is
    /// read from the reply (or is the request's id) and cached for `sql`.
    pub fn complete_prepare(
        cache: &mut Cache<i32>,
        sql: &str,
        reply: Option<Option<i32>>,
        default_id: i32,
    ) -> (s: PreparedStatement)
        requires
            old(cache).wf(),
        ensures
            final(cache).wf(),
            s.statement_id() == reply_statement_id(reply, default_id),
            s.sql_text() == sql@,
            final(cache)@ == old(cache)@.insert(sql@, s.statement_id()),
    {
        let id = extract_stmt_id(reply, default_id);
        cache.insert(sql.to_owned(), id);
        PreparedStatement { id, sql: sql.to_owned() }
    }

    /// Executing the statement with `params`: fails with `NotOpened`
    /// (changing nothing) when no database is open; otherwise an `execute`
    /// request with the next statement counter, this statement's id, and the
    /// parameters when there are any.
    pub fn execute<V>(&self, db: &mut Database<V>, params: Vec<V>) -> (r: Result<
        Command<V>,
        DbError<V>,
    >)
        ensures
            final(db).uid() == old(db).uid(),
            old(db).uid() is None ==> {
                &&& r matches Err(DbError::NotOpened)
                &&& final(db).counter() == old(db).counter()
            },
            old(db).uid() is Some ==> {
                &&& final(db).counter() == next_counter(old(db).counter())
                &&& r matches Ok(Command::Execute { id, stmt_id, bind })
                &&& id == old(db).counter()
                &&& stmt_id == self.statement_id()
                &&& (bind is None <==> params@.len() == 0)
                &&& (bind matches Some(b) ==> b@ == params@)
            },
    {
        if !is_db_open(db) {
            return Err(DbError::NotOpened);
        }
        let id = next_message_id(db);
        Ok(Command::Execute { id, stmt_id: self.id, bind: bind_list(params) })
    }

    /// A `query` sends the same request as `execute`; its reply is then
    /// shaped by [`PreparedStatement::query_reply`].
    pub fn query<V>(&self, db: &mut Database<V>, params: Vec<V>) -> (r: Result<
        Command<V>,
        DbError<V>,
    >)
        ensures
            final(db).uid() == old(db).uid(),
            old(db).uid() is None ==> {
                &&& r matches Err(DbError::NotOpened)
                &&& final(db).counter() == old(db).counter()
            },
            old(db).uid() is Some ==> {
                &&& final(db).counter() == next_counter(old(db).counter())
                &&& r matches Ok(Command::Execute { id, stmt_id, bind })
                &&& id == old(db).counter()
                &&& stmt_id == self.statement_id()
                &&& (bind is None <==> params@.len() == 0)
                &&& (bind matches Some(b) ==> b@ == params@)
            },
    {
        self.execute(db, params)
    }

    /// The rows of a `query` reply as objects (a [`RowsReply`]), when the reply names its
    /// columns (`result.columnNames` is an array; its string entries are the
    /// keys); `None` when it does not, and the raw reply stands.
    pub fn query_reply<V>(
        names: Option<Vec<Option<String>>>,
        rows: Option<Vec<Option<Vec<V>>>>,
    ) -> (r: Option<RowsReply<V>>)
        ensures
            r is Some == names is Some,
            r matches Some(objs) ==> objects_view(objs.result_rows@) == converted_rows(
                opt_rows_view(rows),
                strings_of(names->0@),
            ),
    {
        match extract_column_names(names) {
            Some(cols) => Some(rows_reply(rows, cols)),
            None => None,
        }
    }

    /// Forgets every cached statement id.
    pub fn clear_cache(cache: &mut Cache<i32>)
        ensures
            final(cache).wf(),
            final(cache)@ == Map::<Seq<char>, i32>::empty(),
    {
        cache.clear();
    }
}

} // verus!
