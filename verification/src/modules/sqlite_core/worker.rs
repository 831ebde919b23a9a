//! Decisions around the SQLite Web Worker: browser detection from the user
//! agent, the script path a worker is created from, how long to wait for the
//! worker's readiness signal and what each way of waiting ends in, and the
//! singleton slot that holds the worker.

use vstd::prelude::*;

use crate::modules::sqlite_core::error::DbError;

verus! {

/// Whether `needle` occurs in `hay` at position `i`.
pub open spec fn occurs_at(hay: Seq<char>, needle: Seq<char>, i: int) -> bool {
    0 <= i && i + needle.len() <= hay.len() && hay.subrange(i, i + needle.len()) == needle
}

/// Whether `needle` occurs in `hay`.
pub open spec fn contains_text(hay: Seq<char>, needle: Seq<char>) -> bool {
    exists|i: int| occurs_at(hay, needle, i)
}

fn chars_of(s: &str) -> (v: Vec<char>)
    ensures
        v@ == s@,
{
    let n = s.unicode_len();
    let mut v: Vec<char> = Vec::new();
    let mut i: usize = 0;
    while i < n
        invariant
            n == s@.len(),
            i <= n,
            v@ == s@.take(i as int),
        decreases n - i,
    {
        v.push(s.get_char(i));
        i = i + 1;
        assert(v@ =~= s@.take(i as int));
    }
    assert(s@.take(n as int) =~= s@);
    v
}

fn matches_at(hay: &Vec<char>, needle: &Vec<char>, i: usize) -> (b: bool)
    requires
        i + needle@.len() <= hay@.len(),
    ensures
        b == occurs_at(hay@, needle@, i as int),
{
    let hay_len = hay.len();
    let mut j: usize = 0;
    while j < needle.len()
        invariant
            hay_len == hay@.len(),
            i + needle@.len() <= hay@.len(),
            j <= needle@.len(),
            forall|t: int| 0 <= t < j ==> hay@[i + t] == needle@[t],
        decreases needle@.len() - j,
    {
        if hay[i + j] != needle[j] {
            assert(hay@.subrange(i as int, i + needle@.len())[j as int] != needle@[j as int]);
            return false;
        }
        j = j + 1;
    }
    assert(hay@.subrange(i as int, i + needle@.len()) =~= needle@);
    true
}

/// Whether `needle` occurs in `hay` (`str::contains`).
pub fn text_contains(hay: &str, needle: &str) -> (b: bool)
    ensures
        b == contains_text(hay@, needle@),
{
    let h = chars_of(hay);
    let n = chars_of(needle);
    if n.len() > h.len() {
        proof {
            if contains_text(hay@, needle@) {
                let i = choose|i: int| occurs_at(hay@, needle@, i);
                assert(occurs_at(hay@, needle@, i));
            }
        }
        return false;
    }
    let last = h.len() - n.len();
    let mut i: usize = 0;
    loop
        invariant
            h@ == hay@,
            n@ == needle@,
            last == h@.len() - n@.len(),
            n@.len() <= h@.len(),
            i <= last,
            forall|t: int| 0 <= t < i ==> !occurs_at(hay@, needle@, t),
        ensures
            forall|t: int| 0 <= t <= last ==> !occurs_at(hay@, needle@, t),
        decreases last - i,
    {
        if matches_at(&h, &n, i) {
            return true;
        }
        if i == last {
            break;
        }
        i = i + 1;
    }
    proof {
        if contains_text(hay@, needle@) {
            let t = choose|t: int| occurs_at(hay@, needle@, t);
            assert(t <= last);
            assert(!occurs_at(hay@, needle@, t));
        }
    }
    false
}

/// Whether `s` starts with `prefix` (`str::starts_with`).
pub fn text_starts_with(s: &str, prefix: &str) -> (b: bool)
    ensures
        b == occurs_at(s@, prefix@, 0),
{
    let h = chars_of(s);
    let p = chars_of(prefix);
    if p.len() > h.len() {
        return false;
    }
    matches_at(&h, &p, 0)
}

/// Whether the browser's user agent is Firefox's: it contains `Firefox`.
/// (An unavailable user agent reads as the empty string.)
pub fn is_firefox(user_agent: &str) -> (b: bool)
    ensures
        b == contains_text(user_agent@, "Firefox"@),
{
    text_contains(user_agent, "Firefox")
}

/// The script a worker falls back to on Firefox when given a `blob:` URL.
pub const FIREFOX_WORKER_PATH: &'static str = "/static/sqlite.org/sqlite3-worker1.js";

/// The script path a worker is created from: on Firefox, a `blob:` URL is
/// replaced by [`FIREFOX_WORKER_PATH`]; otherwise the path is used as given.
pub fn worker_script_path<'a>(script_path: &'a str, firefox: bool) -> (p: &'a str)
    ensures
        p@ == if firefox && occurs_at(script_path@, "blob:"@, 0) {
            FIREFOX_WORKER_PATH@
        } else {
            script_path@
        },
{
    if firefox && text_starts_with(script_path, "blob:") {
        FIREFOX_WORKER_PATH
    } else {
        script_path
    }
}

/// How long `wait_for_worker` waits for readiness: Firefox needs longer to
/// bring up OPFS.
pub fn ready_timeout_ms(firefox: bool) -> (ms: i32)
    ensures
        ms == if firefox {
            15000i32
        } else {
            5000i32
        },
{
    if firefox {
        15000
    } else {
        5000
    }
}

/// How long a pool worker is given to become ready.
pub const POOL_READY_TIMEOUT_MS: i32 = 5000;

/// How waiting for the readiness signal ended.
pub enum ReadyWait {
    /// The ready message arrived.
    Ready,
    /// The ready channel was dropped before it signalled.
    ChannelClosed,
    /// The timeout fired first.
    TimedOut,
}

/// The result of `wait_for_worker`.
pub fn wait_result<V>(w: ReadyWait) -> (r: Result<(), DbError<V>>)
    ensures
        w is Ready ==> r is Ok,
        w is ChannelClosed ==> r matches Err(DbError::WorkerNeverReady),
        w is TimedOut ==> r matches Err(DbError::WorkerInitTimeout),
{
    match w {
        ReadyWait::Ready => Ok(()),
        ReadyWait::ChannelClosed => Err(DbError::WorkerNeverReady),
        ReadyWait::TimedOut => Err(DbError::WorkerInitTimeout),
    }
}

/// The result of waiting for a pool worker: anything but the ready message
/// is a timeout.
pub fn pool_wait_result<V>(w: ReadyWait) -> (r: Result<(), DbError<V>>)
    ensures
        w is Ready ==> r is Ok,
        !(w is Ready) ==> r matches Err(DbError::WorkerReadyTimeout),
{
    match w {
        ReadyWait::Ready => Ok(()),
        _ => Err(DbError::WorkerReadyTimeout),
    }
}

/// The slot of the singleton worker: filled once, then kept; it is marked
/// ready once the worker has signalled readiness.
pub struct WorkerSlot<W> {
    worker: Option<W>,
    ready: bool,
}

impl<W> WorkerSlot<W> {
    /// The worker in the slot, if any.
    pub closed spec fn held(&self) -> Option<W> {
        self.worker
    }

    /// Whether the installed worker has signalled readiness.
    pub closed spec fn ready(&self) -> bool {
        self.ready && self.worker is Some
    }

    /// An empty slot.
    pub fn new() -> (s: Self)
        ensures
            s.held() is None,
            !s.ready(),
    {
        WorkerSlot { worker: None, ready: false }
    }

    /// Whether a worker was installed (initialization is then a no-op).
    pub fn is_initialized(&self) -> (b: bool)
        ensures
            b == self.held() is Some,
    {
        self.worker.is_some()
    }

    /// Whether the worker is installed and ready: starting up again is then
    /// a no-op that succeeds at once.
    pub fn is_ready(&self) -> (b: bool)
        ensures
            b == self.ready(),
            b ==> self.held() is Some,
    {
        self.ready && self.worker.is_some()
    }

    /// Installs `worker` in an empty slot (not ready yet); a filled slot
    /// keeps its worker and the call fails with `WorkerAlreadyInitialized`.
    pub fn install<V>(&mut self, worker: W) -> (r: Result<(), DbError<V>>)
        ensures
            old(self).held() is None ==> (r is Ok) && final(self).held() == Some(worker)
                && !final(self).ready(),
            old(self).held() is Some ==> (r matches Err(DbError::WorkerAlreadyInitialized))
                && final(self).held() == old(self).held() && final(self).ready() == old(
                self,
            ).ready(),
    {
        if self.worker.is_some() {
            Err(DbError::WorkerAlreadyInitialized)
        } else {
            self.worker = Some(worker);
            self.ready = false;
            Ok(())
        }
    }

    /// Records that the installed worker signalled readiness.
    pub fn mark_ready(&mut self)
        ensures
            final(self).held() == old(self).held(),
            final(self).ready() == old(self).held() is Some,
    {
        self.ready = true;
    }

    /// The installed worker.
    pub fn get_worker(&self) -> (w: &W)
        requires
            self.held() is Some,
        ensures
            Some(*w) == self.held(),
    {
        self.worker.as_ref().unwrap()
    }
}

} // verus!
