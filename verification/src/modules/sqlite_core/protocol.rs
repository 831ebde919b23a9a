//! The message protocol spoken with `sqlite3-worker1.js`.
//!
//! Every request is an envelope `{ type, messageId, args }`; the worker
//! answers with a message that carries the same `messageId`. This module
//! builds the commands (the `args` part), wraps them in envelopes with a
//! fresh UUID v4 message id, and decides what an incoming worker message
//! means for a pending request: each request's listener is a small state
//! machine that settles the request once and then detaches.

use vstd::prelude::*;

verus! {

/// How the worker returns result rows (`rowMode`).
pub enum RowMode {
    /// Each row is an object keyed by column name.
    Object,
    /// Each row is an array of cells.
    Array,
}

/// The `rowMode` string for each mode.
pub open spec fn row_mode_name(m: RowMode) -> Seq<char> {
    match m {
        RowMode::Object => "object"@,
        RowMode::Array => "array"@,
    }
}

impl RowMode {
    /// The `rowMode` string the worker expects.
    pub fn as_str(&self) -> (s: &'static str)
        ensures
            s@ == row_mode_name(*self),
    {
        match self {
            RowMode::Object => "object",
            RowMode::Array => "array",
        }
    }
}

/// Arguments of an `exec` command: `{ id, type: "exec", sql, rowMode?,
/// dbId?, columnNames?, bind? }`.
pub struct ExecArgs<V> {
    /// The request counter value of this statement.
    pub id: u32,
    /// The SQL text.
    pub sql: String,
    /// `rowMode`, when the statement returns rows.
    pub row_mode: Option<RowMode>,
    /// `dbId`, when the statement targets a specific pool connection.
    pub db_id: Option<V>,
    /// `columnNames: true`, asking the worker to report column names.
    pub column_names: bool,
    /// `bind`, present only when there are parameters.
    pub bind: Option<Vec<V>>,
}

/// A command for the worker; the variant decides the envelope's `type`.
pub enum Command<V> {
    /// `open` with `{ filename, vfs? }`; without a `vfs` the worker's
    /// default, memory-backed file system is used.
    Open { filename: String, vfs: Option<String> },
    /// `close` with `{ dbId }`.
    Close { db_id: V },
    /// `exec` with the arguments of [`ExecArgs`].
    Exec(ExecArgs<V>),
    /// `prepare` with `{ id, sql, type: "prepare" }`.
    Prepare { statement_id: i32, sql: String },
    /// `execute` with `{ id, stmtId, type: "execute", bind? }`.
    Execute { id: u32, stmt_id: i32, bind: Option<Vec<V>> },
}

/// The envelope `type` of each command.
pub open spec fn command_type<V>(c: Command<V>) -> Seq<char> {
    match c {
        Command::Open { .. } => "open"@,
        Command::Close { .. } => "close"@,
        Command::Exec(_) => "exec"@,
        Command::Prepare { .. } => "prepare"@,
        Command::Execute { .. } => "execute"@,
    }
}

impl<V> Command<V> {
    /// The envelope `type` the worker dispatches on.
    pub fn message_type(&self) -> (s: &'static str)
        ensures
            s@ == command_type(*self),
            s@ == "open"@ <==> *self is Open,
            s@ == "close"@ <==> *self is Close,
            s@ == "exec"@ <==> *self is Exec,
            s@ == "prepare"@ <==> *self is Prepare,
            s@ == "execute"@ <==> *self is Execute,
    {
        proof {
            lemma_message_types_follow_worker_api(*self);
        }
        match self {
            Command::Open { .. } => "open",
            Command::Close { .. } => "close",
            Command::Exec(_) => "exec",
            Command::Prepare { .. } => "prepare",
            Command::Execute { .. } => "execute",
        }
    }
}

/// Each command kind travels under the worker's own message type for it
/// (`open`, `close`, `exec`, `prepare`, `execute`), and no two kinds share
/// one.
pub proof fn lemma_message_types_follow_worker_api<V>(c: Command<V>)
    ensures
        command_type(c) == "open"@ <==> c is Open,
        command_type(c) == "close"@ <==> c is Close,
        command_type(c) == "exec"@ <==> c is Exec,
        command_type(c) == "prepare"@ <==> c is Prepare,
        command_type(c) == "execute"@ <==> c is Execute,
{
    reveal_strlit("open");
    reveal_strlit("close");
    reveal_strlit("exec");
    reveal_strlit("prepare");
    reveal_strlit("execute");
    assert("open"@.len() == 4 && "open"@[0] == 'o');
    assert("close"@.len() == 5 && "close"@[0] == 'c');
    assert("exec"@.len() == 4 && "exec"@[0] == 'e');
    assert("prepare"@.len() == 7 && "prepare"@[0] == 'p');
    assert("execute"@.len() == 7 && "execute"@[0] == 'e');
}

/// The `bind` list of a statement: absent when there are no parameters.
pub open spec fn bind_of<V>(params: Seq<V>) -> Option<Seq<V>> {
    if params.len() == 0 {
        None
    } else {
        Some(params)
    }
}

/// The `bind` list sent for `params`: `None` when `params` is empty, the
/// parameters in order otherwise.
pub fn bind_list<V>(params: Vec<V>) -> (b: Option<Vec<V>>)
    ensures
        b is None <==> params@.len() == 0,
        b matches Some(v) ==> v@ == params@,
{
    if params.len() == 0 {
        None
    } else {
        Some(params)
    }
}

/// The arguments of an `exec` statement with the given options.
pub fn exec_args<V>(
    id: u32,
    sql: &str,
    row_mode: Option<RowMode>,
    db_id: Option<V>,
    column_names: bool,
    params: Vec<V>,
) -> (a: ExecArgs<V>)
    ensures
        a.id == id,
        a.sql@ == sql@,
        a.row_mode == row_mode,
        a.db_id == db_id,
        a.column_names == column_names,
        a.bind is None <==> params@.len() == 0,
        a.bind matches Some(v) ==> v@ == params@,
{
    ExecArgs { id, sql: sql.to_owned(), row_mode, db_id, column_names, bind: bind_list(params) }
}

/// The file name of an in-memory SQLite database.
pub const MEMORY_DATABASE: &'static str = ":memory:";

/// The arguments of the worker's `open` command for persistent storage:
/// the file name on the Origin Private File System (`vfs: "opfs"`).
pub fn open_command<V>(database_name: &str) -> (c: Command<V>)
    ensures
        c matches Command::Open { filename, vfs } && filename@ == database_name@ && vfs is Some && vfs->0@ == "opfs"@,
{
    Command::Open { filename: database_name.to_owned(), vfs: Some("opfs".to_owned()) }
}

/// The arguments of the worker's `open` command for a memory-only database
/// (`filename: ":memory:"`, no `vfs`).
pub fn memory_open_command<V>() -> (c: Command<V>)
    ensures
        c matches Command::Open { filename, vfs } && filename@ == MEMORY_DATABASE@ && vfs is None,
{
    Command::Open { filename: MEMORY_DATABASE.to_owned(), vfs: None }
}

/// A message for the worker: `{ type, messageId, args }`.
pub struct Envelope<V> {
    /// The id the reply will carry (a lowercase hyphenated UUID v4).
    pub message_id: String,
    /// The command; its variant gives the envelope's `type`.
    pub command: Command<V>,
}

/// Whether `c` is a lowercase hexadecimal digit.
pub open spec fn is_lower_hex(c: char) -> bool {
    ('0' <= c && c <= '9') || ('a' <= c && c <= 'f')
}

/// Whether `s` is the hyphenated lowercase text of a version 4, RFC 4122
/// variant UUID: `xxxxxxxx-xxxx-4xxx-Nxxx-xxxxxxxxxxxx` with `N` one of
/// `8 9 a b`.
pub open spec fn is_uuid_v4_text(s: Seq<char>) -> bool {
    &&& s.len() == 36
    &&& forall|i: int|
        0 <= i < 36 ==> if i == 8 || i == 13 || i == 18 || i == 23 {
            #[trigger] s[i] == '-'
        } else {
            is_lower_hex(s[i])
        }
    &&& s[14] == '4'
    &&& (s[19] == '8' || s[19] == '9' || s[19] == 'a' || s[19] == 'b')
}

/// `uuid::Uuid::new_v4().to_string()`: a random version 4 UUID in its
/// hyphenated lowercase form. The contract states the form the `uuid` crate
/// writes (`format_hyphenated` with the version nibble set to 4 and the
/// variant bits to `10`); which random value comes out is left free.
#[verifier::external_body]
fn new_uuid_v4() -> (s: String)
    ensures
        is_uuid_v4_text(s@),
{
    uuid::Uuid::new_v4().to_string()
}

/// Wraps `command` in an envelope with a fresh message id.
pub fn envelope<V>(command: Command<V>) -> (e: Envelope<V>)
    ensures
        e.command == command,
        is_uuid_v4_text(e.message_id@),
{
    Envelope { message_id: new_uuid_v4(), command }
}

/// What a pending request does with an incoming worker message.
pub enum Delivery {
    /// The message answers another request.
    Ignore,
    /// The message answers this request: resolve it with the message.
    Resolve,
    /// The message answers this request with an error: reject with it.
    Reject,
}

/// Whether two optional texts hold the same string (JavaScript `===`
/// against a string: a non-string never matches).
pub open spec fn text_is(t: Option<Seq<char>>, s: Seq<char>) -> bool {
    t == Some(s)
}

fn same_text(t: &Option<String>, s: &str) -> (b: bool)
    ensures
        b == text_is(opt_text(*t), s@),
{
    match t {
        Some(x) => {
            let y = s.to_owned();
            *x == y
        },
        None => false,
    }
}

/// The view of an optional text.
pub open spec fn opt_text(t: Option<String>) -> Option<Seq<char>> {
    match t {
        Some(x) => Some(x@),
        None => None,
    }
}

/// Where an incoming message sends the request waiting on `expected`: a
/// message for another id is ignored, a matching message of type `"error"`
/// rejects the request, and every other matching message resolves it.
pub open spec fn route(expected: Seq<char>, incoming: Option<Seq<char>>, reply_type: Option<
    Seq<char>,
>) -> Delivery {
    if !text_is(incoming, expected) {
        Delivery::Ignore
    } else if text_is(reply_type, "error"@) {
        Delivery::Reject
    } else {
        Delivery::Resolve
    }
}

/// Routes a worker message to the request waiting on `expected_id`.
///
/// `incoming_id` and `reply_type` are the message's `messageId` and `type`
/// when they are strings. The same routing serves the session's requests
/// and the pool's connections: an `error` reply fails the request.
pub fn route_reply(expected_id: &str, incoming_id: &Option<String>, reply_type: &Option<String>) -> (d:
    Delivery)
    ensures
        d == route(expected_id@, opt_text(*incoming_id), opt_text(*reply_type)),
        !text_is(opt_text(*incoming_id), expected_id@) ==> d is Ignore,
        text_is(opt_text(*incoming_id), expected_id@) && text_is(opt_text(*reply_type), "error"@)
            ==> d is Reject,
        text_is(opt_text(*incoming_id), expected_id@) && !text_is(opt_text(*reply_type), "error"@)
            ==> d is Resolve,
{
    if !same_text(incoming_id, expected_id) {
        Delivery::Ignore
    } else if same_text(reply_type, "error") {
        Delivery::Reject
    } else {
        Delivery::Resolve
    }
}

/// Where the message listener of one request stands.
#[derive(Clone, Copy)]
pub enum ListenerState {
    /// The request has had no reply yet.
    Waiting,
    /// The request has had its reply; the listener is gone.
    Done,
}

/// What the listener does with one incoming message.
pub struct ListenerAction {
    /// What happens to the pending request.
    pub delivery: Delivery,
    /// Whether the listener removes itself from the worker now.
    pub detach: bool,
}

/// One step of a request's listener: a waiting listener routes the message,
/// and the message that settles the request also detaches the listener; a
/// listener that is done ignores everything.
pub open spec fn listener_next(
    state: ListenerState,
    expected: Seq<char>,
    incoming: Option<Seq<char>>,
    reply_type: Option<Seq<char>>,
) -> (ListenerState, ListenerAction) {
    match state {
        ListenerState::Done => (ListenerState::Done, ListenerAction { delivery: Delivery::Ignore, detach: false }),
        ListenerState::Waiting => {
            let d = route(expected, incoming, reply_type);
            if d is Ignore {
                (ListenerState::Waiting, ListenerAction { delivery: Delivery::Ignore, detach: false })
            } else {
                (ListenerState::Done, ListenerAction { delivery: d, detach: true })
            }
        },
    }
}

/// The listener of the request with message id `expected_id` receives a
/// message with the given `messageId` and `type`: returns its next state and
/// what to do. The action that resolves or rejects the request also
/// detaches the listener, and a listener that is done ignores every later
/// message.
pub fn listener_step(
    state: ListenerState,
    expected_id: &str,
    incoming_id: &Option<String>,
    reply_type: &Option<String>,
) -> (r: (ListenerState, ListenerAction))
    ensures
        r == listener_next(state, expected_id@, opt_text(*incoming_id), opt_text(*reply_type)),
        r.1.detach <==> !(r.1.delivery is Ignore),
        state is Done ==> r.0 is Done && r.1.delivery is Ignore,
        state is Waiting ==> (r.0 is Done <==> !(r.1.delivery is Ignore)),
        state is Waiting ==> r.1.delivery == route(
            expected_id@,
            opt_text(*incoming_id),
            opt_text(*reply_type),
        ),
{
    match state {
        ListenerState::Done => (ListenerState::Done, ListenerAction { delivery: Delivery::Ignore, detach: false }),
        ListenerState::Waiting => {
            let d = route_reply(expected_id, incoming_id, reply_type);
            match d {
                Delivery::Ignore => (
                    ListenerState::Waiting,
                    ListenerAction { delivery: Delivery::Ignore, detach: false },
                ),
                _ => (ListenerState::Done, ListenerAction { delivery: d, detach: true }),
            }
        },
    }
}

/// How many of `msgs` (each a `messageId` and a `type`) a listener starting
/// in `state` delivers to its request.
pub open spec fn deliveries(
    state: ListenerState,
    expected: Seq<char>,
    msgs: Seq<(Option<Seq<char>>, Option<Seq<char>>)>,
) -> nat
    decreases msgs.len(),
{
    if msgs.len() == 0 {
        0
    } else {
        let (next, act) = listener_next(state, expected, msgs[0].0, msgs[0].1);
        (if act.delivery is Ignore {
            0nat
        } else {
            1nat
        }) + deliveries(next, expected, msgs.drop_first())
    }
}

/// A listener that is done delivers nothing, whatever messages follow.
pub proof fn lemma_done_listener_ignores(
    expected: Seq<char>,
    msgs: Seq<(Option<Seq<char>>, Option<Seq<char>>)>,
)
    ensures
        deliveries(ListenerState::Done, expected, msgs) == 0,
    decreases msgs.len(),
{
    if msgs.len() > 0 {
        lemma_done_listener_ignores(expected, msgs.drop_first());
    }
}

/// A request gets at most one reply, whatever messages the worker posts;
/// when one of them carries its message id, it gets exactly one.
pub proof fn lemma_single_reply(expected: Seq<char>, msgs: Seq<(Option<Seq<char>>, Option<Seq<char>>)>)
    ensures
        deliveries(ListenerState::Waiting, expected, msgs) <= 1,
        (exists|i: int| 0 <= i < msgs.len() && text_is(#[trigger] msgs[i].0, expected)) ==> deliveries(
            ListenerState::Waiting,
            expected,
            msgs,
        ) == 1,
    decreases msgs.len(),
{
    if msgs.len() > 0 {
        let rest = msgs.drop_first();
        lemma_done_listener_ignores(expected, rest);
        lemma_single_reply(expected, rest);
        if exists|i: int| 0 <= i < msgs.len() && text_is(#[trigger] msgs[i].0, expected) {
            let i = choose|i: int| 0 <= i < msgs.len() && text_is(#[trigger] msgs[i].0, expected);
            if i > 0 {
                assert(rest[i - 1] == msgs[i]);
                assert(text_is(rest[i - 1].0, expected));
            }
        }
    }
}

/// Whether a worker message is the readiness signal
/// `{ type: "sqlite3-api", result: "worker1-ready" }`.
pub fn is_ready_message(msg_type: &Option<String>, result: &Option<String>) -> (b: bool)
    ensures
        b == (text_is(opt_text(*msg_type), "sqlite3-api"@) && text_is(
            opt_text(*result),
            "worker1-ready"@,
        )),
{
    same_text(msg_type, "sqlite3-api") && same_text(result, "worker1-ready")
}

} // verus!
