//! A pool of worker connections for parallel queries.
//!
//! Each connection is a worker of its own with the database opened on it.
//! A request takes a free connection, trying them round-robin from a
//! rotating start; it waits (10 ms at a time) while all are busy, up to the
//! pool's timeout. A connection is freed when its request succeeds.

use vstd::prelude::*;
use vstd::string::StringExecFns;
use vstd::arithmetic::power2::{pow2, lemma_pow2_unfold};
use vstd::arithmetic::power::lemma_pow0;

use crate::modules::sqlite_core::database::{next_counter, next_message_id, Database};
use crate::modules::sqlite_core::error::DbError;
use crate::modules::sqlite_core::protocol::{bind_list, open_command, Command, ExecArgs, RowMode};
use crate::modules::sqlite_core::text::{decimal, push_decimal};

verus! {

/// The time a pool request waits for a free connection, unless set.
pub const DEFAULT_TIMEOUT_MS: u32 = 30000;

/// The pause between two attempts to find a free connection.
pub const ACQUIRE_RETRY_MS: u32 = 10;

struct PoolConnection<W, V> {
    worker: W,
    db_id: V,
    in_use: bool,
}

/// A pool of connections; `W` is the worker handle, `V` the values sent to
/// and received from the workers (database ids and parameters).
pub struct ConnectionPool<W, V> {
    connections: Vec<PoolConnection<W, V>>,
    current: usize,
    db_name: String,
    pool_size: usize,
    timeout_ms: u32,
}

/// The position `(start + i) mod len` of the rotation that begins at `start`.
pub open spec fn rotation(start: int, i: int, len: int) -> int {
    (start + i) % len
}

/// How many connections are free.
pub open spec fn count_free(busy: Seq<bool>) -> nat
    decreases busy.len(),
{
    if busy.len() == 0 {
        0
    } else {
        count_free(busy.drop_last()) + if busy.last() {
            0nat
        } else {
            1nat
        }
    }
}

proof fn lemma_count_free_bound(busy: Seq<bool>)
    ensures
        count_free(busy) <= busy.len(),
    decreases busy.len(),
{
    if busy.len() > 0 {
        lemma_count_free_bound(busy.drop_last());
    }
}

/// `count_free` counts the free connections wherever they stand: it is the
/// number of `false` flags, a new connection adds one when it is free, and
/// taking a free connection or freeing a busy one changes the count by one.
pub proof fn lemma_count_free_counts(busy: Seq<bool>)
    ensures
        count_free(busy) == busy.filter(|b: bool| !b).len(),
        forall|b: bool|
            #[trigger] count_free(busy.push(b)) == count_free(busy) + if b {
                0nat
            } else {
                1nat
            },
    decreases busy.len(),
{
    reveal(Seq::filter);
    if busy.len() > 0 {
        lemma_count_free_counts(busy.drop_last());
    }
    assert forall|b: bool|
        #[trigger] count_free(busy.push(b)) == count_free(busy) + if b {
            0nat
        } else {
            1nat
        } by {
        assert(busy.push(b).drop_last() =~= busy);
    }
}

/// Taking free connection `i` leaves one free connection fewer; freeing
/// busy connection `i` makes one more, whatever the other flags are.
pub proof fn lemma_count_free_update(busy: Seq<bool>, i: int)
    requires
        0 <= i < busy.len(),
    ensures
        !busy[i] ==> count_free(busy.update(i, true)) + 1 == count_free(busy),
        busy[i] ==> count_free(busy.update(i, false)) == count_free(busy) + 1,
    decreases busy.len(),
{
    if !busy[i] {
        lemma_count_free_take(busy, i);
    } else {
        let freed = busy.update(i, false);
        lemma_count_free_take(freed, i);
        assert(freed.update(i, true) =~= busy);
    }
}

proof fn lemma_count_free_take(busy: Seq<bool>, i: int)
    requires
        0 <= i < busy.len(),
        !busy[i],
    ensures
        count_free(busy.update(i, true)) + 1 == count_free(busy),
    decreases busy.len(),
{
    if i == busy.len() - 1 {
        assert(busy.update(i, true).drop_last() =~= busy.drop_last());
    } else {
        lemma_count_free_take(busy.drop_last(), i);
        assert(busy.update(i, true).drop_last() =~= busy.drop_last().update(i, true));
    }
}

/// The counter value that follows `c`; the pool's rotation counter wraps.
pub open spec fn next_rotation(c: usize) -> usize {
    if c == usize::MAX {
        0
    } else {
        (c + 1) as usize
    }
}

impl<W, V> ConnectionPool<W, V> {
    /// Which connections are in use.
    pub closed spec fn busy(&self) -> Seq<bool> {
        self.connections@.map_values(|c: PoolConnection<W, V>| c.in_use)
    }

    /// The database id of each connection.
    pub closed spec fn db_ids(&self) -> Seq<V> {
        self.connections@.map_values(|c: PoolConnection<W, V>| c.db_id)
    }

    /// The worker of each connection.
    pub closed spec fn workers(&self) -> Seq<W> {
        self.connections@.map_values(|c: PoolConnection<W, V>| c.worker)
    }

    /// The rotation counter.
    pub closed spec fn current(&self) -> usize {
        self.current
    }

    /// The time, in ms, a request waits for a free connection.
    pub closed spec fn timeout(&self) -> u32 {
        self.timeout_ms
    }

    /// The name of the pooled database.
    pub closed spec fn name(&self) -> Seq<char> {
        self.db_name@
    }

    /// The number of connections the pool was built with.
    pub closed spec fn size(&self) -> nat {
        self.pool_size as nat
    }

    /// The pool holds exactly the connections it was built with.
    pub closed spec fn wf(&self) -> bool {
        self.pool_size == self.connections@.len()
    }

    /// Every connection has a busy flag, a database id and a worker: the
    /// three views have the same length.
    pub proof fn lemma_views_agree(&self)
        ensures
            self.busy().len() == self.db_ids().len(),
            self.busy().len() == self.workers().len(),
    {
    }

    /// The `open` command each pooled worker receives:
    /// `{ filename: db_name, vfs: "opfs" }`.
    pub fn open_request(db_name: &str) -> (c: Command<V>)
        ensures
            c matches Command::Open { filename, vfs } && filename@ == db_name@ && vfs is Some
                && vfs->0@ == "opfs"@,
    {
        open_command(db_name)
    }

    /// The database id of a pooled worker's `open` reply: `result.dbId`
    /// (`Some` when the reply has a `result` object), else
    /// `NoDatabaseId`.
    pub fn extract_db_id(reply: Option<V>) -> (r: Result<V, DbError<V>>)
        ensures
            reply matches Some(id) ==> r == Ok::<V, DbError<V>>(id),
            reply is None ==> r matches Err(DbError::NoDatabaseId),
    {
        match reply {
            Some(id) => Ok(id),
            None => Err(DbError::NoDatabaseId),
        }
    }

    /// A pool of the opened connections `(worker, database id)`, in order:
    /// all free, the rotation at zero, the default timeout.
    pub fn new(db_name: &str, opened: Vec<(W, V)>) -> (p: Self)
        ensures
            p.wf(),
            p.size() == opened@.len(),
            p.name() == db_name@,
            p.timeout() == DEFAULT_TIMEOUT_MS,
            p.current() == 0,
            p.busy() == Seq::new(opened@.len(), |i: int| false),
            p.db_ids() == opened@.map_values(|c: (W, V)| c.1),
            p.workers() == opened@.map_values(|c: (W, V)| c.0),
    {
        let ghost orig = opened@;
        let n = opened.len();
        let mut opened = opened;
        let mut rev: Vec<PoolConnection<W, V>> = Vec::new();
        while opened.len() > 0
            invariant
                opened@.len() + rev@.len() == orig.len(),
                opened@ == orig.take(opened@.len() as int),
                forall|i: int|
                    0 <= i < rev@.len() ==> (#[trigger] rev@[i]).worker == orig[orig.len() - 1
                        - i].0 && rev@[i].db_id == orig[orig.len() - 1 - i].1 && !rev@[i].in_use,
            decreases opened@.len(),
        {
            let (worker, db_id) = opened.pop().unwrap();
            rev.push(PoolConnection { worker, db_id, in_use: false });
            assert(opened@ =~= orig.take(opened@.len() as int));
        }
        let mut connections: Vec<PoolConnection<W, V>> = Vec::new();
        while rev.len() > 0
            invariant
                rev@.len() + connections@.len() == orig.len(),
                forall|i: int|
                    0 <= i < rev@.len() ==> (#[trigger] rev@[i]).worker == orig[orig.len() - 1
                        - i].0 && rev@[i].db_id == orig[orig.len() - 1 - i].1 && !rev@[i].in_use,
                forall|i: int|
                    0 <= i < connections@.len() ==> (#[trigger] connections@[i]).worker
                        == orig[i].0 && connections@[i].db_id == orig[i].1
                        && !connections@[i].in_use,
            decreases rev@.len(),
        {
            let c = rev.pop().unwrap();
            connections.push(c);
        }
        let pool = ConnectionPool {
            connections,
            current: 0,
            db_name: db_name.to_owned(),
            pool_size: n,
            timeout_ms: DEFAULT_TIMEOUT_MS,
        };
        assert(pool.busy() =~= Seq::new(orig.len(), |i: int| false));
        assert(pool.db_ids() =~= orig.map_values(|c: (W, V)| c.1));
        assert(pool.workers() =~= orig.map_values(|c: (W, V)| c.0));
        pool
    }

    /// Sets the time, in ms, a request waits for a free connection.
    pub fn set_timeout(&mut self, timeout_ms: u32)
        ensures
            final(self).timeout() == timeout_ms,
            final(self).busy() == old(self).busy(),
            final(self).db_ids() == old(self).db_ids(),
            final(self).workers() == old(self).workers(),
            final(self).current() == old(self).current(),
            final(self).name() == old(self).name(),
            final(self).size() == old(self).size(),
            final(self).wf() == old(self).wf(),
    {
        self.timeout_ms = timeout_ms;
    }

    /// The worker of connection `idx`.
    pub fn worker(&self, idx: usize) -> (w: &W)
        requires
            idx < self.workers().len(),
        ensures
            *w == self.workers()[idx as int],
    {
        &self.connections[idx].worker
    }

    /// Takes a free connection: starting from the rotation counter (modulo
    /// the pool size), the first connection in rotation order that is free
    /// is marked busy and returned; `None` when every connection is busy.
    /// The rotation counter advances (wrapping) either way.
    pub fn get_connection(&mut self) -> (r: Option<usize>)
        requires
            old(self).busy().len() > 0,
        ensures
            final(self).current() == next_rotation(old(self).current()),
            final(self).db_ids() == old(self).db_ids(),
            final(self).workers() == old(self).workers(),
            final(self).timeout() == old(self).timeout(),
            final(self).name() == old(self).name(),
            final(self).size() == old(self).size(),
            final(self).wf() == old(self).wf(),
            r matches Some(idx) ==> {
                let len = old(self).busy().len() as int;
                let start = (old(self).current() as int) % len;
                &&& idx < len
                &&& idx < old(self).db_ids().len() && idx < old(self).workers().len()
                &&& !old(self).busy()[idx as int]
                &&& final(self).busy() == old(self).busy().update(idx as int, true)
                &&& exists|j: int|
                    0 <= j < len && idx == rotation(start, j, len) && forall|t: int|
                        0 <= t < j ==> #[trigger] old(self).busy()[rotation(start, t, len)]
            },
            r is None ==> final(self).busy() == old(self).busy() && forall|k: int|
                0 <= k < old(self).busy().len() ==> #[trigger] old(self).busy()[k],
    {
        let len = self.connections.len();
        let start = self.current % len;
        self.current = if self.current == usize::MAX {
            0
        } else {
            self.current + 1
        };
        let ghost busy = self.busy();
        let mut i: usize = 0;
        while i < len
            invariant
                len == self.connections@.len(),
                len > 0,
                start < len,
                i <= len,
                busy == self.busy(),
                busy == old(self).busy(),
                start == (old(self).current() as int) % (len as int),
                self.connections@ == old(self).connections@,
                self.current == next_rotation(old(self).current),
                self.timeout_ms == old(self).timeout_ms,
                self.db_name == old(self).db_name,
                self.pool_size == old(self).pool_size,
                forall|t: int| 0 <= t < i ==> #[trigger] busy[rotation(start as int, t, len as int)],
            decreases len - i,
        {
            let idx = if i < len - start {
                start + i
            } else {
                i - (len - start)
            };
            assert(idx == rotation(start as int, i as int, len as int)) by (nonlinear_arith)
                requires
                    start < len,
                    i < len,
                    idx == (if i < len - start {
                        start + i
                    } else {
                        i - (len - start)
                    }),
            ;
            if !self.connections[idx].in_use {
                let ghost before = self.connections@;
                let mut conn = self.connections.remove(idx);
                conn.in_use = true;
                self.connections.insert(idx, conn);
                assert(self.busy() =~= busy.update(idx as int, true));
                assert(self.db_ids() =~= before.map_values(|c: PoolConnection<W, V>| c.db_id));
                assert(self.workers() =~= before.map_values(|c: PoolConnection<W, V>| c.worker));
                return Some(idx);
            }
            i = i + 1;
        }
        proof {
            assert forall|k: int| 0 <= k < busy.len() implies #[trigger] busy[k] by {
                let t = if k >= start { k - start } else { k + len - start };
                assert(rotation(start as int, t, len as int) == k) by (nonlinear_arith)
                    requires
                        0 <= k < len,
                        start < len,
                        t == (if k >= start { k - start } else { k + len - start }),
                ;
                assert(busy[rotation(start as int, t, len as int)]);
            }
        }
        None
    }

    /// Whether waiting `elapsed_ms` (rounded up to a whole millisecond) for
    /// a free connection exceeds the timeout: then the request fails with
    /// `ConnectionTimeout`, else it waits and tries again.
    pub fn acquire_timeout(&self, elapsed_ms: u64) -> (r: Result<(), DbError<V>>)
        ensures
            elapsed_ms > self.timeout() ==> r == Err::<(), DbError<V>>(
                DbError::ConnectionTimeout(self.timeout()),
            ),
            elapsed_ms <= self.timeout() ==> r is Ok,
    {
        if elapsed_ms > self.timeout_ms as u64 {
            Err(DbError::ConnectionTimeout(self.timeout_ms))
        } else {
            Ok(())
        }
    }

    /// Frees connection `idx`: a request frees its connection when it ends,
    /// whether it succeeded or failed.
    pub fn release(&mut self, idx: usize)
        requires
            idx < old(self).busy().len(),
        ensures
            final(self).busy() == old(self).busy().update(idx as int, false),
            final(self).db_ids() == old(self).db_ids(),
            final(self).workers() == old(self).workers(),
            final(self).current() == old(self).current(),
            final(self).timeout() == old(self).timeout(),
            final(self).name() == old(self).name(),
            final(self).size() == old(self).size(),
            final(self).wf() == old(self).wf(),
    {
        let ghost before = self.connections@;
        let mut conn = self.connections.remove(idx);
        conn.in_use = false;
        self.connections.insert(idx, conn);
        assert(self.busy() =~= before.map_values(|c: PoolConnection<W, V>| c.in_use).update(
            idx as int,
            false,
        ));
        assert(self.db_ids() =~= before.map_values(|c: PoolConnection<W, V>| c.db_id));
        assert(self.workers() =~= before.map_values(|c: PoolConnection<W, V>| c.worker));
    }
}

impl<W, V: Clone> ConnectionPool<W, V> {
    /// The `exec` arguments of a statement on connection `idx`: the next
    /// statement id, the SQL, the row mode, a copy of the connection's
    /// database id, and the parameters when there are any.
    pub fn statement(
        &self,
        db: &mut Database<V>,
        idx: usize,
        sql: &str,
        mode: Option<RowMode>,
        params: Vec<V>,
    ) -> (a: ExecArgs<V>)
        requires
            idx < self.db_ids().len(),
        ensures
            final(db).uid() == old(db).uid(),
            final(db).counter() == next_counter(old(db).counter()),
            a.id == old(db).counter(),
            a.sql@ == sql@,
            a.row_mode == mode,
            a.db_id matches Some(d) && cloned(self.db_ids()[idx as int], d),
            !a.column_names,
            a.bind is None <==> params@.len() == 0,
            a.bind matches Some(b) ==> b@ == params@,
    {
        let id = next_message_id(db);
        let d = self.connections[idx].db_id.clone();
        ExecArgs {
            id,
            sql: sql.to_owned(),
            row_mode: mode,
            db_id: Some(d),
            column_names: false,
            bind: bind_list(params),
        }
    }

    /// `query`: rows as objects, on connection `idx`.
    pub fn query(&self, db: &mut Database<V>, idx: usize, sql: &str, params: Vec<V>) -> (c: Command<
        V,
    >)
        requires
            idx < self.db_ids().len(),
        ensures
            final(db).uid() == old(db).uid(),
            final(db).counter() == next_counter(old(db).counter()),
            c matches Command::Exec(a) && pooled_statement(
                a,
                old(db).counter(),
                sql@,
                Some(RowMode::Object),
                self.db_ids()[idx as int],
                params@,
            ),
    {
        Command::Exec(self.statement(db, idx, sql, Some(RowMode::Object), params))
    }

    /// `query_array`: rows as arrays, on connection `idx`.
    pub fn query_array(&self, db: &mut Database<V>, idx: usize, sql: &str, params: Vec<V>) -> (c:
        Command<V>)
        requires
            idx < self.db_ids().len(),
        ensures
            final(db).uid() == old(db).uid(),
            final(db).counter() == next_counter(old(db).counter()),
            c matches Command::Exec(a) && pooled_statement(
                a,
                old(db).counter(),
                sql@,
                Some(RowMode::Array),
                self.db_ids()[idx as int],
                params@,
            ),
    {
        Command::Exec(self.statement(db, idx, sql, Some(RowMode::Array), params))
    }

    /// `exec`: a statement without rows, on connection `idx`.
    pub fn exec(&self, db: &mut Database<V>, idx: usize, sql: &str, params: Vec<V>) -> (c: Command<
        V,
    >)
        requires
            idx < self.db_ids().len(),
        ensures
            final(db).uid() == old(db).uid(),
            final(db).counter() == next_counter(old(db).counter()),
            c matches Command::Exec(a) && pooled_statement(
                a,
                old(db).counter(),
                sql@,
                None,
                self.db_ids()[idx as int],
                params@,
            ),
    {
        Command::Exec(self.statement(db, idx, sql, None, params))
    }

    /// The probe `health_check` sends to connection `idx`: `SELECT 1` with
    /// rows as objects and no parameters.
    pub fn health_check_request(&self, db: &mut Database<V>, idx: usize) -> (c: Command<V>)
        requires
            idx < self.db_ids().len(),
        ensures
            final(db).uid() == old(db).uid(),
            final(db).counter() == next_counter(old(db).counter()),
            c matches Command::Exec(a) && pooled_statement(
                a,
                old(db).counter(),
                "SELECT 1"@,
                Some(RowMode::Object),
                self.db_ids()[idx as int],
                Seq::empty(),
            ),
    {
        let none: Vec<V> = Vec::new();
        Command::Exec(self.statement(db, idx, "SELECT 1", Some(RowMode::Object), none))
    }

    /// The `close` command for connection `idx` (`close_all` sends it to
    /// every connection and frees each one whatever the reply).
    pub fn close_request(&self, idx: usize) -> (c: Command<V>)
        requires
            idx < self.db_ids().len(),
        ensures
            c matches Command::Close { db_id } && cloned(self.db_ids()[idx as int], db_id),
    {
        Command::Close { db_id: self.connections[idx].db_id.clone() }
    }
}

/// The arguments of a pooled statement: the given id, SQL and row mode, a
/// copy of the connection's database id, and the parameters when there are
/// any.
pub open spec fn pooled_statement<V: Clone>(
    a: ExecArgs<V>,
    id: u32,
    sql: Seq<char>,
    mode: Option<RowMode>,
    db_id: V,
    params: Seq<V>,
) -> bool {
    &&& a.id == id
    &&& a.sql@ == sql
    &&& a.row_mode == mode
    &&& a.db_id matches Some(d) && cloned(db_id, d)
    &&& !a.column_names
    &&& (a.bind is None <==> params.len() == 0)
    &&& (a.bind matches Some(b) ==> b@ == params)
}

/// A snapshot of the pool for `stats` and `stats_json`.
pub struct PoolStats {
    pub db_name: String,
    pub pool_size: usize,
    pub timeout_ms: u32,
    pub available: usize,
    pub busy: usize,
}

/// The text of `stats`:
/// `Pool '<name>': <available>/<size> connections available (<busy> busy) - timeout: <ms>ms`.
pub open spec fn stats_text(name: Seq<char>, available: nat, size: nat, busy: nat, timeout: nat) -> Seq<
    char,
> {
    "Pool '"@ + name + "': "@ + decimal(available) + "/"@ + decimal(size)
        + " connections available ("@ + decimal(busy) + " busy) - timeout: "@ + decimal(timeout)
        + "ms"@
}

impl<W, V> ConnectionPool<W, V> {
    /// The pool's name, size, timeout, and how many connections are free and
    /// busy.
    pub fn stats_snapshot(&self) -> (s: PoolStats)
        requires
            self.wf(),
        ensures
            s.db_name@ == self.name(),
            s.pool_size == self.size(),
            s.timeout_ms == self.timeout(),
            s.available == count_free(self.busy()),
            s.available == self.busy().filter(|b: bool| !b).len(),
            s.busy == self.size() - count_free(self.busy()),
    {
        proof {
            lemma_count_free_counts(self.busy());
        }
        let mut available: usize = 0;
        let mut i: usize = 0;
        let ghost busy = self.busy();
        while i < self.connections.len()
            invariant
                i <= self.connections@.len(),
                busy == self.busy(),
                available == count_free(busy.take(i as int)),
                available <= i,
            decreases self.connections@.len() - i,
        {
            assert(busy.take(i + 1).drop_last() =~= busy.take(i as int));
            if !self.connections[i].in_use {
                available = available + 1;
            }
            i = i + 1;
        }
        assert(busy.take(i as int) =~= busy);
        PoolStats {
            db_name: self.db_name.clone(),
            pool_size: self.pool_size,
            timeout_ms: self.timeout_ms,
            available,
            busy: self.pool_size - available,
        }
    }

    /// `stats`: a one-line description of the pool.
    pub fn stats(&self) -> (s: String)
        requires
            self.wf(),
        ensures
            s@ == stats_text(
                self.name(),
                count_free(self.busy()),
                self.size(),
                (self.size() - count_free(self.busy())) as nat,
                self.timeout() as nat,
            ),
    {
        let st = self.stats_snapshot();
        let mut s = String::from_str("Pool '");
        s.append(st.db_name.as_str());
        s.append("': ");
        push_decimal(&mut s, st.available as u64);
        s.append("/");
        push_decimal(&mut s, st.pool_size as u64);
        s.append(" connections available (");
        push_decimal(&mut s, st.busy as u64);
        s.append(" busy) - timeout: ");
        push_decimal(&mut s, st.timeout_ms as u64);
        s.append("ms");
        s
    }
}

// ==================== RETRY ====================

/// The pause after failed attempt `attempt` (from 1): 100 ms doubled with
/// every attempt, at most 2000 ms.
pub open spec fn retry_delay(attempt: nat) -> nat {
    let d = 100 * pow2((attempt - 1) as nat);
    if d <= 2000 {
        d
    } else {
        2000
    }
}

/// The delay computed step by step: each attempt doubles the previous
/// delay, capped at 2000 ms.
spec fn capped_doubling(k: nat) -> nat
    decreases k,
{
    if k == 0 {
        100
    } else {
        let d = 2 * capped_doubling((k - 1) as nat);
        if d <= 2000 {
            d
        } else {
            2000
        }
    }
}

proof fn lemma_capped_doubling(k: nat)
    ensures
        capped_doubling(k) == retry_delay(k + 1),
    decreases k,
{
    if k == 0 {
        lemma_pow0(2);
        assert(pow2(0) == 1);
    } else {
        lemma_capped_doubling((k - 1) as nat);
        lemma_pow2_unfold(k);
    }
}

/// The pause after failed attempt `attempt` (`attempt >= 1`), in ms.
pub fn retry_delay_ms(attempt: usize) -> (d: i32)
    requires
        attempt >= 1,
    ensures
        d == retry_delay(attempt as nat),
{
    let mut d: i32 = 100;
    let mut k: usize = 1;
    while k < attempt
        invariant
            1 <= k <= attempt,
            d == capped_doubling((k - 1) as nat),
            100 <= d <= 2000,
        decreases attempt - k,
    {
        d = if d <= 1000 {
            2 * d
        } else {
            2000
        };
        k = k + 1;
    }
    proof {
        lemma_capped_doubling((attempt - 1) as nat);
    }
    d
}

/// What a retried query does next.
pub enum RetryStep<T, E> {
    /// Run attempt number `n` (from 1).
    Attempt(usize),
    /// Attempt `attempt` failed: pause `delay_ms` before going on.
    Sleep { attempt: usize, delay_ms: i32 },
    /// The retried query is over with this result.
    Done(Result<T, E>),
}

/// A query retried up to `max_retries` times, pausing after each failure.
pub struct RetryRun<E> {
    max_retries: usize,
    attempt: usize,
    sleeping: bool,
    last_error: Option<E>,
}

impl<E> RetryRun<E> {
    /// The attempt under way or just failed.
    pub closed spec fn attempt(&self) -> nat {
        self.attempt as nat
    }

    /// The most attempts made.
    pub closed spec fn max_retries(&self) -> nat {
        self.max_retries as nat
    }

    /// Whether the run is pausing after a failure.
    pub closed spec fn sleeping(&self) -> bool {
        self.sleeping
    }

    /// The error of the last failed attempt.
    pub closed spec fn last_error(&self) -> Option<E> {
        self.last_error
    }

    /// Attempts stay within `1 ..= max_retries`; a pause follows a failure.
    pub closed spec fn wf(&self) -> bool {
        &&& 1 <= self.attempt <= self.max_retries
        &&& self.sleeping ==> self.last_error is Some
    }

    /// Starts `query_with_retry`: attempt 1 runs first.
    pub fn start<T>(max_retries: usize) -> (res: (Self, RetryStep<T, E>))
        requires
            max_retries >= 1,
        ensures
            res.0.wf(),
            res.0.attempt() == 1,
            res.0.max_retries() == max_retries,
            !res.0.sleeping(),
            res.1 == RetryStep::<T, E>::Attempt(1),
    {
        (RetryRun { max_retries, attempt: 1, sleeping: false, last_error: None }, RetryStep::Attempt(1))
    }

    /// The outcome of the running attempt: success ends the run with it; a
    /// failure is kept and a pause of [`retry_delay`] follows (also after the
    /// last attempt).
    pub fn on_attempt<T>(&mut self, outcome: Result<T, E>) -> (step: RetryStep<T, E>)
        requires
            old(self).wf(),
            !old(self).sleeping(),
        ensures
            final(self).attempt() == old(self).attempt(),
            final(self).max_retries() == old(self).max_retries(),
            outcome matches Ok(v) ==> step == RetryStep::<T, E>::Done(Ok(v)),
            outcome matches Err(e) ==> {
                &&& final(self).wf()
                &&& final(self).sleeping()
                &&& final(self).last_error() == Some(e)
                &&& step == RetryStep::<T, E>::Sleep {
                    attempt: old(self).attempt() as usize,
                    delay_ms: retry_delay(old(self).attempt()) as i32,
                }
            },
    {
        match outcome {
            Ok(v) => RetryStep::Done(Ok(v)),
            Err(e) => {
                self.last_error = Some(e);
                self.sleeping = true;
                let delay_ms = retry_delay_ms(self.attempt);
                RetryStep::Sleep { attempt: self.attempt, delay_ms }
            },
        }
    }

    /// The outcome of the pause: a failed pause ends the run with its
    /// error; after the pause the next attempt runs, or, when the last
    /// attempt has failed, the run ends with that attempt's error.
    pub fn on_sleep<T>(&mut self, outcome: Result<(), E>) -> (step: RetryStep<T, E>)
        requires
            old(self).wf(),
            old(self).sleeping(),
        ensures
            final(self).max_retries() == old(self).max_retries(),
            outcome matches Err(e) ==> step == RetryStep::<T, E>::Done(Err(e)),
            outcome is Ok && old(self).attempt() < old(self).max_retries() ==> {
                &&& final(self).wf()
                &&& !final(self).sleeping()
                &&& final(self).attempt() == old(self).attempt() + 1
                &&& step == RetryStep::<T, E>::Attempt((old(self).attempt() + 1) as usize)
            },
            outcome is Ok && old(self).attempt() == old(self).max_retries() ==> step
                == RetryStep::<T, E>::Done(Err(old(self).last_error()->0)),
    {
        match outcome {
            Err(e) => RetryStep::Done(Err(e)),
            Ok(()) => {
                if self.attempt < self.max_retries {
                    self.attempt = self.attempt + 1;
                    self.sleeping = false;
                    RetryStep::Attempt(self.attempt)
                } else {
                    let e = self.last_error.take().unwrap();
                    RetryStep::Done(Err(e))
                }
            },
        }
    }
}


// ==================== LAWS ====================

/// Taking a free connection and freeing it again restores the pool's
/// occupancy; a connection handed out is never one in use.
pub proof fn lemma_acquire_release(busy: Seq<bool>, idx: int)
    requires
        0 <= idx < busy.len(),
        !busy[idx],
    ensures
        busy.update(idx, true).update(idx, false) == busy,
        busy.update(idx, true)[idx],
{
    assert(busy.update(idx, true).update(idx, false) =~= busy);
}

/// A connection is never leased twice: once taken it is busy, so the next
/// connection taken before it is freed is another one.
pub proof fn lemma_no_double_lease(busy: Seq<bool>, first: int, second: int)
    requires
        0 <= first < busy.len(),
        0 <= second < busy.len(),
        !busy.update(first, true)[second],
    ensures
        first != second,
{
}

/// The free and busy counts of `stats` add up to the pool size, and a new
/// pool has every connection free.
pub proof fn lemma_stats_balance(busy: Seq<bool>)
    ensures
        count_free(busy) <= busy.len(),
        count_free(Seq::new(busy.len(), |i: int| false)) == busy.len(),
{
    lemma_count_free_bound(busy);
    lemma_count_all_free(busy.len());
}

proof fn lemma_count_all_free(n: nat)
    ensures
        count_free(Seq::new(n, |i: int| false)) == n,
    decreases n,
{
    if n > 0 {
        lemma_count_all_free((n - 1) as nat);
        assert(Seq::new(n, |i: int| false).drop_last() =~= Seq::new((n - 1) as nat, |i: int| false));
    }
}

/// Retry pauses start at 100 ms, never shrink from one attempt to the next,
/// and never exceed 2000 ms.
pub proof fn lemma_retry_delay_bounds(a: nat, b: nat)
    requires
        1 <= a <= b,
    ensures
        100 <= retry_delay(a) <= 2000,
        retry_delay(a) <= retry_delay(b),
        retry_delay(1) == 100,
    decreases b - a,
{
    lemma_capped_doubling((a - 1) as nat);
    lemma_capped_doubling(0);
    lemma_capped_doubling_bounds((a - 1) as nat);
    if a < b {
        lemma_retry_delay_bounds(a, (b - 1) as nat);
        lemma_capped_doubling((b - 2) as nat);
        lemma_capped_doubling((b - 1) as nat);
        lemma_capped_doubling_bounds((b - 2) as nat);
    }
}

proof fn lemma_capped_doubling_bounds(k: nat)
    ensures
        100 <= capped_doubling(k) <= 2000,
        capped_doubling(k) <= capped_doubling(k + 1),
    decreases k,
{
    if k > 0 {
        lemma_capped_doubling_bounds((k - 1) as nat);
    }
}

} // verus!
