//! The task runtime: sessions, tasks and their lifecycle, held in memory.
//!
//! Executing a task's target (the agent, an MCP tool, a remote A2A agent) is done by
//! the caller between [`RuntimeService::submit_task`] (or `approve_task`,
//! `resume_task`), which leave the task `Running`, and [`RuntimeService::finish_task`],
//! which records the outcome. Times are given by the caller in milliseconds.
use vstd::prelude::*;
use vstd::arithmetic::div_mod::lemma_add_mod_noop_right;

use crate::error::{opt_view, Failure, NuroError};
use crate::json::{lemma_members_view, Json, JsonValue};
use crate::event::{Event, EventView};
use crate::runtime::replay::{
    mode_name_spec, replay_mode_name, replay_outcome, replay_spec, replay_view, validate_events, ReplayMode,
    ReplayResult,
};
use crate::runtime::store::EventStore;
use crate::server::models::{
    audits_view, ActionRequest, MetricsSnapshot, ReplayResponse, ResponseView, label_spec, AuditRecord, AuditView, RequestView, RuntimeSession, RuntimeTask,
    RuntimeTaskRequest, SessionView, TargetView, TaskStatus, TaskTarget, TaskView, TokenUsage,
};
use crate::server::policy::{decide, rules_view, DecisionView, PolicyDecision, PolicyEngine, RuleView};
use crate::text::{
    concat3, concat_str, contains_string, count_words, dec, is_blank, split_ws, str_eq, trim, u64_to_dec, views,
};

verus! {

/// An error answered to a client: an HTTP status and a message.
#[derive(Debug)]
pub struct ServerError {
    status: u16,
    message: String,
}

/// The model of a server error.
pub ghost struct ErrorView {
    pub status: u16,
    pub message: Seq<char>,
}

impl View for ServerError {
    type V = ErrorView;

    closed spec fn view(&self) -> ErrorView {
        ErrorView { status: self.status, message: self.message@ }
    }
}

/// The error with the given status and message.
pub open spec fn err(status: u16, message: Seq<char>) -> ErrorView {
    ErrorView { status, message }
}

/// The status a library error is answered with: 400 for invalid input, 500 otherwise.
pub open spec fn failure_status(f: Failure) -> u16 {
    match f {
        Failure::InvalidInput(_) => 400,
        _ => 500,
    }
}

/// The message a library error carries.
pub open spec fn failure_message(f: Failure) -> Seq<char> {
    match f {
        Failure::Llm(m) => m,
        Failure::Tool(m) => m,
        Failure::ToolNotFound(m) => m,
        Failure::InvalidInput(m) => m,
        Failure::Storage(m) => m,
    }
}

impl ServerError {
    /// An error with any status.
    pub fn new(status: u16, message: &str) -> (e: ServerError)
        ensures
            e@ == err(status, message@),
    {
        ServerError { status, message: String::from_str(message) }
    }

    /// A 400 error.
    pub fn bad_request(message: &str) -> (e: ServerError)
        ensures
            e@ == err(400, message@),
    {
        Self::new(400, message)
    }

    /// A 403 error.
    pub fn forbidden(message: &str) -> (e: ServerError)
        ensures
            e@ == err(403, message@),
    {
        Self::new(403, message)
    }

    /// A 404 error.
    pub fn not_found(message: &str) -> (e: ServerError)
        ensures
            e@ == err(404, message@),
    {
        Self::new(404, message)
    }

    /// A 409 error.
    pub fn conflict(message: &str) -> (e: ServerError)
        ensures
            e@ == err(409, message@),
    {
        Self::new(409, message)
    }

    /// A 500 error.
    pub fn internal(message: &str) -> (e: ServerError)
        ensures
            e@ == err(500, message@),
    {
        Self::new(500, message)
    }

    /// The HTTP status.
    pub fn status(&self) -> (s: u16)
        ensures
            s == self@.status,
    {
        self.status
    }

    /// The message.
    pub fn message(&self) -> (m: &str)
        ensures
            m@ == self@.message,
    {
        self.message.as_str()
    }

    /// The answer to a library error: invalid input is a bad request, anything else an
    /// internal error; the message is kept.
    pub fn from_error(e: NuroError) -> (r: ServerError)
        ensures
            r@ == err(failure_status(e@), failure_message(e@)),
    {
        match e {
            NuroError::InvalidInput(m) => ServerError { status: 400, message: m },
            NuroError::Storage(m) => ServerError { status: 500, message: m },
            NuroError::Tool(m) => ServerError { status: 500, message: m },
            NuroError::Llm(m) => ServerError { status: 500, message: m },
            NuroError::ToolNotFound(m) => ServerError { status: 500, message: m },
        }
    }

    /// A copy of the error.
    pub fn duplicate(&self) -> (r: ServerError)
        ensures
            r@ == self@,
    {
        ServerError { status: self.status, message: self.message.clone() }
    }
}

/// The larger of two numbers.
pub open spec fn max_nat(a: nat, b: nat) -> nat {
    if a >= b {
        a
    } else {
        b
    }
}

/// The token estimate of a text: none for the empty text, else the larger of its word
/// count and its character count divided by four, rounded up.
pub open spec fn estimate_spec(s: Seq<char>) -> nat {
    if s.len() == 0 {
        0
    } else {
        max_nat(split_ws(s).len(), ((s.len() + 3) / 4) as nat)
    }
}

/// Estimated number of tokens in a text.
pub fn estimate_tokens(text: &str) -> (n: u64)
    ensures
        n as nat == estimate_spec(text@),
{
    let chars = text.unicode_len() as u64;
    if chars == 0 {
        return 0;
    }
    let words = count_words(text) as u64;
    let quarter = chars / 4 + if chars % 4 == 0 {
        0
    } else {
        1
    };
    assert(quarter == (text@.len() + 3) / 4);
    if words >= quarter {
        words
    } else {
        quarter
    }
}

/// Whether metadata says anything: not `null` and not an empty object.
pub open spec fn has_metadata_spec(v: Json) -> bool {
    match v {
        Json::Null => false,
        Json::Object(m) => m.len() > 0,
        _ => true,
    }
}

/// Whether metadata says anything.
pub fn has_metadata(value: &JsonValue) -> (b: bool)
    ensures
        b == has_metadata_spec(value@),
{
    match value {
        JsonValue::Null => false,
        JsonValue::Object(members) => {
            proof {
                lemma_members_view(members@, members@.len() as int);
            }
            members.len() > 0
        },
        _ => true,
    }
}

/// The actor of an action: the one given, unless it is missing or blank, else `system`.
pub open spec fn actor_spec(actor: Option<Seq<char>>) -> Seq<char> {
    match actor {
        Some(a) => if trim(a).len() > 0 {
            a
        } else {
            "system"@
        },
        None => "system"@,
    }
}

/// The actor of an action.
pub fn actor_or_system(actor: &Option<String>) -> (s: String)
    ensures
        s@ == actor_spec(opt_view(*actor)),
{
    match actor {
        Some(a) => {
            if is_blank(a.as_str()) {
                String::from_str("system")
            } else {
                a.clone()
            }
        },
        None => String::from_str("system"),
    }
}

/// The position of the last occurrence of `id` in `keys`, or -1.
pub open spec fn key_pos(keys: Seq<Seq<char>>, id: Seq<char>) -> int
    decreases keys.len(),
{
    if keys.len() == 0 {
        -1
    } else if keys.last() == id {
        keys.len() - 1
    } else {
        key_pos(keys.drop_last(), id)
    }
}

/// What `key_pos` finds: an occurrence with none after it, or -1 when there is none.
pub proof fn lemma_key_pos(keys: Seq<Seq<char>>, id: Seq<char>)
    ensures
        -1 <= key_pos(keys, id) < keys.len(),
        key_pos(keys, id) >= 0 ==> keys[key_pos(keys, id)] == id,
        forall|j: int| key_pos(keys, id) < j < keys.len() ==> keys[j] != id,
        forall|i: int|
            0 <= i < keys.len() && keys[i] == id && (forall|j: int| i < j < keys.len() ==> keys[j]
                != id) ==> key_pos(keys, id) == i,
        keys.no_duplicates() ==> forall|i: int|
            0 <= i < keys.len() && keys[i] == id ==> key_pos(keys, id) == i,
    decreases keys.len(),
{
    if keys.len() > 0 {
        let d = keys.drop_last();
        lemma_key_pos(d, id);
        assert forall|j: int| key_pos(keys, id) < j < keys.len() implies keys[j] != id by {
            if j < keys.len() - 1 {
                assert(d[j] == keys[j]);
            }
        }
        assert forall|i: int|
            0 <= i < keys.len() && keys[i] == id && (forall|j: int| i < j < keys.len() ==> keys[j]
                != id) implies key_pos(keys, id) == i by {
            if i < keys.len() - 1 {
                assert(keys.last() != id);
                assert(d[i] == id);
                assert forall|j: int| i < j < d.len() implies d[j] != id by {
                    assert(d[j] == keys[j]);
                }
            }
        }
        if keys.no_duplicates() {
            assert forall|i: int| 0 <= i < keys.len() && keys[i] == id implies key_pos(keys, id)
                == i by {
                assert forall|j: int| i < j < keys.len() implies keys[j] != id by {}
            }
        }
    }
}

/// The identifiers of sessions, in order.
pub open spec fn session_ids(ss: Seq<SessionView>) -> Seq<Seq<char>> {
    ss.map_values(|x: SessionView| x.session_id)
}

/// The identifiers of tasks, in order.
pub open spec fn task_ids_of(ts: Seq<TaskView>) -> Seq<Seq<char>> {
    ts.map_values(|x: TaskView| x.task_id)
}

/// The position of the session `id`, or -1.
pub open spec fn session_pos(ss: Seq<SessionView>, id: Seq<char>) -> int {
    key_pos(session_ids(ss), id)
}

/// The position of the task `id`, or -1.
pub open spec fn task_pos(ts: Seq<TaskView>, id: Seq<char>) -> int {
    key_pos(task_ids_of(ts), id)
}

/// The model of the runtime service.
pub ghost struct ServiceView {
    pub rules: Seq<RuleView>,
    pub sessions: Seq<SessionView>,
    pub tasks: Seq<TaskView>,
    pub next_session_id: u64,
    pub next_task_id: u64,
    pub next_run_id: u64,
    pub policy_rejections: u64,
}

/// The runtime's invariant: session and task identifiers are unique, every task belongs
/// to a known session that lists it, and no session lists a task twice.
pub open spec fn service_wf(s: ServiceView) -> bool {
    &&& session_ids(s.sessions).no_duplicates()
    &&& task_ids_of(s.tasks).no_duplicates()
    &&& forall|i: int|
        #![trigger s.tasks[i]]
        0 <= i < s.tasks.len() ==> {
            let p = session_pos(s.sessions, s.tasks[i].session_id);
            p >= 0 && s.sessions[p].task_ids.contains(s.tasks[i].task_id)
        }
    &&& forall|i: int| 0 <= i < s.sessions.len() ==> (#[trigger] s.sessions[i]).task_ids.no_duplicates()
}

/// A counter after one increment, wrapping at `u64::MAX`.
pub open spec fn bump(n: u64) -> u64 {
    if n == u64::MAX {
        0
    } else {
        (n + 1) as u64
    }
}

/// The error for an unknown task.
pub open spec fn task_not_found(id: Seq<char>) -> ErrorView {
    err(404, "task '"@ + id + "' was not found"@)
}

/// The error for an unknown session.
pub open spec fn session_not_found(id: Seq<char>) -> ErrorView {
    err(404, "session '"@ + id + "' was not found"@)
}

/// Storing a task: it replaces the task with its identifier or is added after the
/// others; its session lists it (once) and takes its update time. Fails when the session
/// is unknown.
pub open spec fn store_spec(s: ServiceView, t: TaskView) -> Result<ServiceView, ErrorView> {
    let p = session_pos(s.sessions, t.session_id);
    if p < 0 {
        Err(session_not_found(t.session_id))
    } else {
        let sess = s.sessions[p];
        let ids = if sess.task_ids.contains(t.task_id) {
            sess.task_ids
        } else {
            sess.task_ids.push(t.task_id)
        };
        let sess2 = SessionView { task_ids: ids, updated_at_ms: t.updated_at_ms, ..sess };
        let q = task_pos(s.tasks, t.task_id);
        let tasks2 = if q >= 0 {
            s.tasks.update(q, t)
        } else {
            s.tasks.push(t)
        };
        Ok(ServiceView { sessions: s.sessions.update(p, sess2), tasks: tasks2, ..s })
    }
}

/// Storing a task keeps the runtime's invariant.
pub proof fn lemma_store_keeps_wf(s: ServiceView, t: TaskView)
    requires
        service_wf(s),
        store_spec(s, t) is Ok,
    ensures
        service_wf(store_spec(s, t)->Ok_0),
{
    let s2 = store_spec(s, t)->Ok_0;
    let p = session_pos(s.sessions, t.session_id);
    let q = task_pos(s.tasks, t.task_id);
    lemma_key_pos(session_ids(s.sessions), t.session_id);
    lemma_key_pos(task_ids_of(s.tasks), t.task_id);
    let sess = s.sessions[p];
    assert(session_ids(s2.sessions) =~= session_ids(s.sessions));
    if q >= 0 {
        assert(task_ids_of(s2.tasks) =~= task_ids_of(s.tasks));
    } else {
        assert(task_ids_of(s2.tasks) =~= task_ids_of(s.tasks).push(t.task_id));
        assert forall|i: int, j: int|
            0 <= i < task_ids_of(s2.tasks).len() && 0 <= j < task_ids_of(s2.tasks).len() && i
                != j implies task_ids_of(s2.tasks)[i] != task_ids_of(s2.tasks)[j] by {
            if i < s.tasks.len() && j < s.tasks.len() {
                assert(task_ids_of(s.tasks)[i] != task_ids_of(s.tasks)[j]);
            } else if i < s.tasks.len() {
                assert(task_ids_of(s.tasks)[i] != t.task_id);
            } else {
                assert(task_ids_of(s.tasks)[j] != t.task_id);
            }
        }
    }
    assert forall|i: int| 0 <= i < s2.tasks.len() implies {
        let pp = session_pos(s2.sessions, #[trigger] s2.tasks[i].session_id);
        pp >= 0 && s2.sessions[pp].task_ids.contains(s2.tasks[i].task_id)
    } by {
        let u = s2.tasks[i];
        if u != t {
            assert(i < s.tasks.len() && s.tasks[i] == u);
            let pu = session_pos(s.sessions, u.session_id);
            lemma_key_pos(session_ids(s.sessions), u.session_id);
            assert(session_pos(s2.sessions, u.session_id) == pu);
            assert(pu >= 0 && s.sessions[pu].task_ids.contains(u.task_id));
            if pu == p {
                let k = choose|k: int| 0 <= k < sess.task_ids.len() && sess.task_ids[k] == u.task_id;
                assert(s2.sessions[p].task_ids[k] == u.task_id);
            } else {
                assert(s2.sessions[pu] == s.sessions[pu]);
            }
        } else {
            assert(session_pos(s2.sessions, t.session_id) == p);
            if !sess.task_ids.contains(t.task_id) {
                assert(s2.sessions[p].task_ids[sess.task_ids.len() as int] == t.task_id);
            }
        }
    }
    assert forall|i: int| 0 <= i < s2.sessions.len() implies (
    #[trigger] s2.sessions[i]).task_ids.no_duplicates() by {
        if i == p && !sess.task_ids.contains(t.task_id) {
            let ids = sess.task_ids.push(t.task_id);
            assert(s.sessions[i].task_ids.no_duplicates());
            assert forall|a: int, b: int|
                0 <= a < ids.len() && 0 <= b < ids.len() && a != b implies ids[a] != ids[b] by {
                if a < sess.task_ids.len() && b < sess.task_ids.len() {
                } else if a < sess.task_ids.len() {
                    assert(sess.task_ids[a] != t.task_id);
                } else {
                    assert(sess.task_ids[b] != t.task_id);
                }
            }
        } else {
            assert(s.sessions[i].task_ids.no_duplicates());
        }
    }
}

/// The model of an optional task result.
pub open spec fn task_result(r: Result<RuntimeTask, ServerError>) -> Result<TaskView, ErrorView> {
    match r {
        Ok(t) => Ok(t@),
        Err(e) => Err(e@),
    }
}

/// The runtime: a policy engine, the sessions and tasks it knows, and its counters.
#[derive(Debug)]
pub struct RuntimeService {
    policy_engine: PolicyEngine,
    sessions: Vec<RuntimeSession>,
    tasks: Vec<RuntimeTask>,
    next_session_id: u64,
    next_task_id: u64,
    next_run_id: u64,
    policy_rejections: u64,
}

impl View for RuntimeService {
    type V = ServiceView;

    closed spec fn view(&self) -> ServiceView {
        ServiceView {
            rules: rules_view(self.policy_engine.rules@),
            sessions: self.sessions@.map_values(|x: RuntimeSession| x@),
            tasks: self.tasks@.map_values(|x: RuntimeTask| x@),
            next_session_id: self.next_session_id,
            next_task_id: self.next_task_id,
            next_run_id: self.next_run_id,
            policy_rejections: self.policy_rejections,
        }
    }
}

impl RuntimeService {
    /// A runtime with the given policies, no sessions and no tasks; its counters start
    /// at 1 and no request has been rejected.
    pub fn new(policy_engine: PolicyEngine) -> (r: RuntimeService)
        ensures
            r@ == (ServiceView {
                rules: rules_view(policy_engine.rules@),
                sessions: seq![],
                tasks: seq![],
                next_session_id: 1,
                next_task_id: 1,
                next_run_id: 1,
                policy_rejections: 0,
            }),
            service_wf(r@),
    {
        let r = RuntimeService {
            policy_engine,
            sessions: Vec::new(),
            tasks: Vec::new(),
            next_session_id: 1,
            next_task_id: 1,
            next_run_id: 1,
            policy_rejections: 0,
        };
        assert(r@.sessions =~= seq![]);
        assert(r@.tasks =~= seq![]);
        r
    }

    fn find_session(&self, id: &str) -> (r: Option<usize>)
        ensures
            match r {
                Some(i) => i as int == session_pos(self@.sessions, id@) && i < self@.sessions.len(),
                None => session_pos(self@.sessions, id@) == -1,
            },
    {
        let ghost keys = session_ids(self@.sessions);
        proof {
            lemma_key_pos(keys, id@);
        }
        let mut n = self.sessions.len();
        while n > 0
            invariant
                n <= self.sessions@.len(),
                keys == session_ids(self@.sessions),
                keys.len() == self.sessions@.len(),
                forall|k: int| 0 <= k < keys.len() ==> #[trigger] keys[k] == self.sessions@[k].session_id@,
                forall|j: int| n <= j < keys.len() ==> keys[j] != id@,
                forall|i: int|
                    0 <= i < keys.len() && keys[i] == id@ && (forall|j: int| i < j < keys.len() ==> keys[j]
                        != id@) ==> key_pos(keys, id@) == i,
                -1 <= key_pos(keys, id@) < keys.len(),
                key_pos(keys, id@) >= 0 ==> keys[key_pos(keys, id@)] == id@,
            decreases n,
        {
            if str_eq(self.sessions[n - 1].session_id.as_str(), id) {
                assert(keys[n - 1] == id@);
                return Some(n - 1);
            }
            n = n - 1;
        }
        None
    }

    fn find_task(&self, id: &str) -> (r: Option<usize>)
        ensures
            match r {
                Some(i) => i as int == task_pos(self@.tasks, id@) && i < self@.tasks.len(),
                None => task_pos(self@.tasks, id@) == -1,
            },
    {
        let ghost keys = task_ids_of(self@.tasks);
        proof {
            lemma_key_pos(keys, id@);
        }
        let mut n = self.tasks.len();
        while n > 0
            invariant
                n <= self.tasks@.len(),
                keys == task_ids_of(self@.tasks),
                keys.len() == self.tasks@.len(),
                forall|k: int| 0 <= k < keys.len() ==> #[trigger] keys[k] == self.tasks@[k].task_id@,
                forall|j: int| n <= j < keys.len() ==> keys[j] != id@,
                forall|i: int|
                    0 <= i < keys.len() && keys[i] == id@ && (forall|j: int| i < j < keys.len() ==> keys[j]
                        != id@) ==> key_pos(keys, id@) == i,
                -1 <= key_pos(keys, id@) < keys.len(),
                key_pos(keys, id@) >= 0 ==> keys[key_pos(keys, id@)] == id@,
            decreases n,
        {
            if str_eq(self.tasks[n - 1].task_id.as_str(), id) {
                assert(keys[n - 1] == id@);
                return Some(n - 1);
            }
            n = n - 1;
        }
        None
    }

    fn store_task(&mut self, task: RuntimeTask) -> (r: Result<RuntimeTask, ServerError>)
        ensures
            match store_spec(old(self)@, task@) {
                Ok(s2) => final(self)@ == s2 && task_result(r) == Ok::<TaskView, ErrorView>(task@),
                Err(e) => final(self)@ == old(self)@ && task_result(r) == Err::<TaskView, ErrorView>(e),
            },
    {
        let p = self.find_session(task.session_id.as_str());
        match p {
            None => {
                let m = concat3("session '", task.session_id.as_str(), "' was not found");
                Err(ServerError::not_found(m.as_str()))
            },
            Some(p) => {
                let ghost s = self@;
                let mut sess = self.sessions[p].duplicate();
                let listed = contains_string(&sess.task_ids, task.task_id.as_str());
                if !listed {
                    let ghost before = sess.task_ids@;
                    sess.task_ids.push(task.task_id.clone());
                    assert(views(sess.task_ids@) =~= views(before).push(task.task_id@));
                }
                sess.updated_at_ms = task.updated_at_ms;
                let ghost sv = sess@;
                self.sessions.set(p, sess);
                assert(self@.sessions =~= s.sessions.update(p as int, sv));
                let q = self.find_task(task.task_id.as_str());
                let stored = task.duplicate();
                match q {
                    Some(q) => {
                        self.tasks.set(q, stored);
                        assert(self@.tasks =~= s.tasks.update(q as int, task@));
                    },
                    None => {
                        self.tasks.push(stored);
                        assert(self@.tasks =~= s.tasks.push(task@));
                    },
                }
                Ok(task)
            },
        }
    }
}

/// An audit entry.
pub open spec fn audit(now: u64, action: Seq<char>, actor: Seq<char>, detail: Seq<char>) -> AuditView {
    AuditView { timestamp_ms: now, action, actor, detail }
}

/// The identifier a session request names: the one given, or the next `session-<n>`.
pub open spec fn requested_session_id(s: ServiceView, session_id: Option<Seq<char>>) -> Seq<char> {
    match session_id {
        Some(id) => id,
        None => "session-"@ + dec(s.next_session_id as nat),
    }
}

/// Creating a session, or touching the one with the requested identifier: a new session
/// has the metadata and no tasks; a known one takes the metadata only when it says
/// something. Either way its update time is `now`. Only a generated identifier uses up
/// a number.
pub open spec fn touch_session(
    s: ServiceView,
    session_id: Option<Seq<char>>,
    metadata: Json,
    now: u64,
) -> (ServiceView, SessionView) {
    let id = requested_session_id(s, session_id);
    let next = if session_id is Some {
        s.next_session_id
    } else {
        bump(s.next_session_id)
    };
    let p = session_pos(s.sessions, id);
    if p >= 0 {
        let known = s.sessions[p];
        let sess = SessionView {
            metadata: if has_metadata_spec(metadata) {
                metadata
            } else {
                known.metadata
            },
            updated_at_ms: now,
            ..known
        };
        (ServiceView { sessions: s.sessions.update(p, sess), next_session_id: next, ..s }, sess)
    } else {
        let sess = SessionView {
            session_id: id,
            metadata,
            task_ids: seq![],
            created_at_ms: now,
            updated_at_ms: now,
        };
        (ServiceView { sessions: s.sessions.push(sess), next_session_id: next, ..s }, sess)
    }
}

/// Touching a session keeps the runtime's invariant.
pub proof fn lemma_touch_keeps_wf(s: ServiceView, session_id: Option<Seq<char>>, metadata: Json, now: u64)
    requires
        service_wf(s),
    ensures
        service_wf(touch_session(s, session_id, metadata, now).0),
{
    let s2 = touch_session(s, session_id, metadata, now).0;
    let id = requested_session_id(s, session_id);
    let p = session_pos(s.sessions, id);
    lemma_key_pos(session_ids(s.sessions), id);
    if p >= 0 {
        assert(session_ids(s2.sessions) =~= session_ids(s.sessions));
        assert forall|i: int| 0 <= i < s2.tasks.len() implies {
            let pp = session_pos(s2.sessions, #[trigger] s2.tasks[i].session_id);
            pp >= 0 && s2.sessions[pp].task_ids.contains(s2.tasks[i].task_id)
        } by {
            lemma_key_pos(session_ids(s.sessions), s.tasks[i].session_id);
        }
        assert forall|i: int| 0 <= i < s2.sessions.len() implies (
        #[trigger] s2.sessions[i]).task_ids.no_duplicates() by {
            assert(s.sessions[i].task_ids.no_duplicates());
        }
    } else {
        let ids = session_ids(s.sessions);
        assert(session_ids(s2.sessions) =~= ids.push(id));
        assert forall|i: int, j: int|
            0 <= i < ids.push(id).len() && 0 <= j < ids.push(id).len() && i != j implies ids.push(
            id)[i] != ids.push(id)[j] by {
            if i < ids.len() && j < ids.len() {
            } else if i < ids.len() {
                assert(ids[i] != id);
            } else {
                assert(ids[j] != id);
            }
        }
        assert forall|i: int| 0 <= i < s2.tasks.len() implies {
            let pp = session_pos(s2.sessions, #[trigger] s2.tasks[i].session_id);
            pp >= 0 && s2.sessions[pp].task_ids.contains(s2.tasks[i].task_id)
        } by {
            let sid = s.tasks[i].session_id;
            lemma_key_pos(ids, sid);
            assert(ids.push(id).drop_last() =~= ids);
            assert(sid != id);
            assert(session_pos(s2.sessions, sid) == session_pos(s.sessions, sid));
        }
        assert forall|i: int| 0 <= i < s2.sessions.len() implies (
        #[trigger] s2.sessions[i]).task_ids.no_duplicates() by {
            if i < s.sessions.len() {
                assert(s.sessions[i].task_ids.no_duplicates());
            }
        }
    }
}

/// The error, if any, of a request whose input or target is blank.
pub open spec fn validate_spec(input: Seq<char>, target: TargetView) -> Option<ErrorView> {
    match target {
        TargetView::Agent => if trim(input).len() == 0 {
            Some(err(400, "input must not be empty"@))
        } else {
            None
        },
        TargetView::A2a { url } => if trim(input).len() == 0 {
            Some(err(400, "input must not be empty"@))
        } else if trim(url).len() == 0 {
            Some(err(400, "a2a url must not be empty"@))
        } else {
            None
        },
        TargetView::Mcp { tool_name, .. } => if trim(tool_name).len() == 0 {
            Some(err(400, "mcp tool name must not be empty"@))
        } else {
            None
        },
    }
}

/// A new task for an admitted request: numbered from the counters, `Running`, with the
/// input's token estimate and one audit entry naming the protocol.
pub open spec fn new_task_spec(s: ServiceView, session_id: Seq<char>, r: RequestView, now: u64) -> TaskView {
    TaskView {
        task_id: "task-"@ + dec(s.next_task_id as nat),
        session_id,
        run_id: "run-"@ + dec(s.next_run_id as nat),
        input: r.input,
        target: r.target,
        status: TaskStatus::Running,
        requires_approval: r.requires_approval,
        approval_reason: None,
        output: None,
        error: None,
        metadata: r.metadata,
        token_usage: TokenUsage { input_tokens: estimate_spec(r.input) as u64, output_tokens: 0 },
        audit_trail: seq![audit(now, "task.created"@, "system"@, "protocol="@ + label_spec(r.target))],
        created_at_ms: now,
        updated_at_ms: now,
    }
}

/// Whether an admitted request runs at once: no policy or request holds it, and it is not
/// created paused.
pub open spec fn runs_at_once(d: DecisionView, r: RequestView) -> bool {
    d is Allow && !r.requires_approval && !r.start_paused
}

/// The task as admitted: held for approval by a policy or by the request, paused, or
/// unchanged when it runs at once.
pub open spec fn admitted_spec(t: TaskView, d: DecisionView, r: RequestView, now: u64) -> TaskView {
    match d {
        DecisionView::RequireApproval { reason, .. } => TaskView {
            requires_approval: true,
            approval_reason: Some(reason),
            status: TaskStatus::PendingApproval,
            audit_trail: t.audit_trail.push(
                audit(now, "task.awaiting_approval"@, "policy"@, reason),
            ),
            ..t
        },
        _ => if r.requires_approval {
            TaskView {
                status: TaskStatus::PendingApproval,
                approval_reason: Some("manual approval requested"@),
                audit_trail: t.audit_trail.push(
                    audit(now, "task.awaiting_approval"@, "user"@, "request marked as approval-gated"@),
                ),
                ..t
            }
        } else if r.start_paused {
            TaskView {
                status: TaskStatus::Interrupted,
                audit_trail: t.audit_trail.push(
                    audit(now, "task.interrupted"@, "system"@, "task created in paused state"@),
                ),
                ..t
            }
        } else {
            t
        },
    }
}

/// A task whose execution starts: `Running`, no error, updated now, with an audit entry
/// for the action (detail `task execution started` unless one is given).
pub open spec fn start_spec(
    t: TaskView,
    actor: Seq<char>,
    action: Seq<char>,
    detail: Option<Seq<char>>,
    now: u64,
) -> TaskView {
    TaskView {
        status: TaskStatus::Running,
        error: None,
        updated_at_ms: now,
        audit_trail: t.audit_trail.push(
            audit(
                now,
                action,
                actor,
                match detail {
                    Some(d) => d,
                    None => "task execution started"@,
                },
            ),
        ),
        ..t
    }
}

/// Starting the execution of a stored task.
pub open spec fn execute_spec(
    s: ServiceView,
    id: Seq<char>,
    actor: Seq<char>,
    action: Seq<char>,
    detail: Option<Seq<char>>,
    now: u64,
) -> (ServiceView, Result<TaskView, ErrorView>) {
    let q = task_pos(s.tasks, id);
    if q < 0 {
        (s, Err(task_not_found(id)))
    } else {
        let t = start_spec(s.tasks[q], actor, action, detail, now);
        match store_spec(s, t) {
            Ok(s2) => (s2, Ok(t)),
            Err(e) => (s, Err(e)),
        }
    }
}

/// Submitting a task: a blank request is refused (400), a denied one is counted and
/// refused (403); otherwise its session is touched, the task is numbered and stored, and
/// it either waits (approval, pause) or starts running.
pub open spec fn submit_spec(s: ServiceView, r: RequestView, now: u64) -> (
    ServiceView,
    Result<TaskView, ErrorView>,
) {
    match validate_spec(r.input, r.target) {
        Some(e) => (s, Err(e)),
        None => {
            let d = decide(s.rules, r.input);
            if d is Deny {
                (
                    ServiceView { policy_rejections: bump(s.policy_rejections), ..s },
                    Err(err(403, d->Deny_reason)),
                )
            } else {
                let (s1, sess) = touch_session(s, r.session_id, r.metadata, now);
                let s2 = ServiceView {
                    next_task_id: bump(s1.next_task_id),
                    next_run_id: bump(s1.next_run_id),
                    ..s1
                };
                let t = admitted_spec(new_task_spec(s1, sess.session_id, r, now), d, r, now);
                match store_spec(s2, t) {
                    Err(e) => (s2, Err(e)),
                    Ok(s3) => if runs_at_once(d, r) {
                        execute_spec(s3, t.task_id, "system"@, "task.executed"@, None, now)
                    } else {
                        (s3, Ok(t))
                    },
                }
            }
        },
    }
}

/// Interrupting a task: unknown (404), finished (409) and running (409) tasks are
/// refused; a waiting task becomes `Interrupted` with an audit entry by the actor.
pub open spec fn interrupt_spec(
    s: ServiceView,
    id: Seq<char>,
    actor: Option<Seq<char>>,
    comment: Option<Seq<char>>,
    now: u64,
) -> (ServiceView, Result<TaskView, ErrorView>) {
    let q = task_pos(s.tasks, id);
    if q < 0 {
        (s, Err(task_not_found(id)))
    } else {
        let t = s.tasks[q];
        if t.status == TaskStatus::Completed || t.status == TaskStatus::Failed {
            (s, Err(err(409, "cannot interrupt a completed task"@)))
        } else if t.status == TaskStatus::Running {
            (
                s,
                Err(
                    err(
                        409,
                        "running tasks are synchronous; create them paused or approval-gated to resume later"@,
                    ),
                ),
            )
        } else {
            let t2 = TaskView {
                status: TaskStatus::Interrupted,
                updated_at_ms: now,
                audit_trail: t.audit_trail.push(
                    audit(
                        now,
                        "task.interrupted"@,
                        actor_spec(actor),
                        match comment {
                            Some(c) => c,
                            None => "task interrupted before execution"@,
                        },
                    ),
                ),
                ..t
            };
            match store_spec(s, t2) {
                Ok(s2) => (s2, Ok(t2)),
                Err(e) => (s, Err(e)),
            }
        }
    }
}

/// Approving a task: only a task that waits for approval starts (`task.approved`).
pub open spec fn approve_spec(
    s: ServiceView,
    id: Seq<char>,
    actor: Option<Seq<char>>,
    comment: Option<Seq<char>>,
    now: u64,
) -> (ServiceView, Result<TaskView, ErrorView>) {
    let q = task_pos(s.tasks, id);
    if q < 0 {
        (s, Err(task_not_found(id)))
    } else if s.tasks[q].status != TaskStatus::PendingApproval {
        (s, Err(err(409, "task is not awaiting approval"@)))
    } else {
        execute_spec(s, id, actor_spec(actor), "task.approved"@, comment, now)
    }
}

/// Resuming a task: only an interrupted task starts (`task.resumed`).
pub open spec fn resume_spec(
    s: ServiceView,
    id: Seq<char>,
    actor: Option<Seq<char>>,
    comment: Option<Seq<char>>,
    now: u64,
) -> (ServiceView, Result<TaskView, ErrorView>) {
    let q = task_pos(s.tasks, id);
    if q < 0 {
        (s, Err(task_not_found(id)))
    } else if s.tasks[q].status != TaskStatus::Interrupted {
        (s, Err(err(409, "task is not interrupted"@)))
    } else {
        execute_spec(s, id, actor_spec(actor), "task.resumed"@, comment, now)
    }
}

/// The model of an execution outcome.
pub open spec fn outcome_view(o: Result<String, String>) -> Result<Seq<char>, Seq<char>> {
    match o {
        Ok(out) => Ok(out@),
        Err(m) => Err(m@),
    }
}

/// Recording an outcome: an output completes the task with its token estimate, an error
/// message fails it; either way with an audit entry by `runtime`.
pub open spec fn finish_spec(
    s: ServiceView,
    id: Seq<char>,
    outcome: Result<Seq<char>, Seq<char>>,
    now: u64,
) -> (ServiceView, Result<TaskView, ErrorView>) {
    let q = task_pos(s.tasks, id);
    if q < 0 {
        (s, Err(task_not_found(id)))
    } else {
        let t = s.tasks[q];
        let t2 = match outcome {
            Ok(out) => {
                let n = estimate_spec(out) as u64;
                TaskView {
                    status: TaskStatus::Completed,
                    output: Some(out),
                    error: None,
                    token_usage: TokenUsage { output_tokens: n, ..t.token_usage },
                    updated_at_ms: now,
                    audit_trail: t.audit_trail.push(
                        audit(now, "task.completed"@, "runtime"@, "output_tokens="@ + dec(n as nat)),
                    ),
                    ..t
                }
            },
            Err(m) => TaskView {
                status: TaskStatus::Failed,
                error: Some(m),
                updated_at_ms: now,
                audit_trail: t.audit_trail.push(audit(now, "task.failed"@, "runtime"@, m)),
                ..t
            },
        };
        match store_spec(s, t2) {
            Ok(s2) => (s2, Ok(t2)),
            Err(e) => (s, Err(e)),
        }
    }
}

/// The modulus of the token counters, which wrap.
pub open spec fn token_modulus() -> nat {
    0x1_0000_0000_0000_0000nat
}

/// The number of tasks in a given status.
pub open spec fn count_status(ts: Seq<TaskView>, st: TaskStatus) -> nat
    decreases ts.len(),
{
    if ts.len() == 0 {
        0
    } else {
        count_status(ts.drop_last(), st) + if ts.last().status == st {
            1nat
        } else {
            0nat
        }
    }
}

/// The input tokens of all tasks.
pub open spec fn total_input_tokens(ts: Seq<TaskView>) -> nat
    decreases ts.len(),
{
    if ts.len() == 0 {
        0
    } else {
        total_input_tokens(ts.drop_last()) + ts.last().token_usage.input_tokens as nat
    }
}

/// The output tokens of all tasks.
pub open spec fn total_output_tokens(ts: Seq<TaskView>) -> nat
    decreases ts.len(),
{
    if ts.len() == 0 {
        0
    } else {
        total_output_tokens(ts.drop_last()) + ts.last().token_usage.output_tokens as nat
    }
}

/// The counters of a runtime: numbers of sessions and tasks, of tasks in each final or
/// waiting status, of rejected requests, and token totals (wrapping at 2^64).
pub open spec fn metrics_spec(s: ServiceView) -> MetricsSnapshot {
    MetricsSnapshot {
        sessions_total: s.sessions.len() as u64,
        tasks_total: s.tasks.len() as u64,
        tasks_completed_total: count_status(s.tasks, TaskStatus::Completed) as u64,
        tasks_failed_total: count_status(s.tasks, TaskStatus::Failed) as u64,
        tasks_interrupted_current: count_status(s.tasks, TaskStatus::Interrupted) as u64,
        tasks_pending_approval_current: count_status(s.tasks, TaskStatus::PendingApproval) as u64,
        policy_rejections_total: s.policy_rejections,
        input_tokens_total: (total_input_tokens(s.tasks) % token_modulus()) as u64,
        output_tokens_total: (total_output_tokens(s.tasks) % token_modulus()) as u64,
    }
}

/// One metric in the Prometheus text format: its type line and its value line.
pub open spec fn metric_text(name: Seq<char>, kind: Seq<char>, value: u64) -> Seq<char> {
    "# TYPE "@ + name + " "@ + kind + "\n"@ + name + " "@ + dec(value as nat) + "\n"@
}

/// All counters in the Prometheus text format.
pub open spec fn prometheus_spec(m: MetricsSnapshot) -> Seq<char> {
    metric_text("nuro_sessions_total"@, "gauge"@, m.sessions_total) + metric_text(
        "nuro_tasks_total"@,
        "gauge"@,
        m.tasks_total,
    ) + metric_text("nuro_tasks_completed_total"@, "counter"@, m.tasks_completed_total)
        + metric_text("nuro_tasks_failed_total"@, "counter"@, m.tasks_failed_total) + metric_text(
        "nuro_tasks_interrupted_current"@,
        "gauge"@,
        m.tasks_interrupted_current,
    ) + metric_text(
        "nuro_tasks_pending_approval_current"@,
        "gauge"@,
        m.tasks_pending_approval_current,
    ) + metric_text("nuro_policy_rejections_total"@, "counter"@, m.policy_rejections_total)
        + metric_text("nuro_input_tokens_total"@, "counter"@, m.input_tokens_total) + metric_text(
        "nuro_output_tokens_total"@,
        "counter"@,
        m.output_tokens_total,
    )
}

fn wrap_add(a: u64, b: u64) -> (r: u64)
    ensures
        r as int == (a + b) % (token_modulus() as int),
{
    if a > u64::MAX - b {
        a - (u64::MAX - b) - 1
    } else {
        a + b
    }
}

fn push_metric(out: &mut String, name: &str, kind: &str, value: u64)
    ensures
        final(out)@ == old(out)@ + metric_text(name@, kind@, value),
{
    out.append("# TYPE ");
    out.append(name);
    out.append(" ");
    out.append(kind);
    out.append("\n");
    out.append(name);
    out.append(" ");
    let digits = u64_to_dec(value);
    out.append(digits.as_str());
    out.append("\n");
    assert(final(out)@ =~= old(out)@ + metric_text(name@, kind@, value));
}

/// The model of an optional string slice.
pub open spec fn str_opt_view(o: Option<&str>) -> Option<Seq<char>> {
    match o {
        Some(s) => Some(s@),
        None => None,
    }
}

/// The model of a replay answer.
pub open spec fn response_view(r: Result<ReplayResponse, ServerError>) -> Result<ResponseView, ErrorView> {
    match r {
        Ok(x) => Ok(x@),
        Err(e) => Err(e@),
    }
}

/// The answer to a replay request: the replay's error (400 for invalid input, else
/// 500); 404 when it found no event and the session is unknown; else the events and
/// warnings, with the session, run and mode name.
pub open spec fn replay_response_spec(
    s: ServiceView,
    session_id: Seq<char>,
    run_id: Option<Seq<char>>,
    mode: ReplayMode,
    replayed: Result<(Seq<EventView>, Seq<Seq<char>>), Failure>,
) -> Result<ResponseView, ErrorView> {
    match replayed {
        Err(f) => Err(err(failure_status(f), failure_message(f))),
        Ok((events, warnings)) => if events.len() == 0 && session_pos(s.sessions, session_id) < 0 {
            Err(session_not_found(session_id))
        } else {
            Ok(
                ResponseView {
                    session_id,
                    run_id,
                    mode: mode_name_spec(mode),
                    events,
                    warnings,
                },
            )
        },
    }
}

fn bumped(n: u64) -> (r: u64)
    ensures
        r == bump(n),
{
    if n == u64::MAX {
        0
    } else {
        n + 1
    }
}

fn append_audit(task: &mut RuntimeTask, action: &str, actor: &str, detail: &str, now: u64)
    ensures
        final(task)@ == (TaskView {
            audit_trail: old(task)@.audit_trail.push(audit(now, action@, actor@, detail@)),
            ..old(task)@
        }),
{
    let ghost before = task.audit_trail@;
    let entry = AuditRecord {
        timestamp_ms: now,
        action: String::from_str(action),
        actor: String::from_str(actor),
        detail: String::from_str(detail),
    };
    task.audit_trail.push(entry);
    assert(audits_view(task.audit_trail@) =~= audits_view(before).push(
        audit(now, action@, actor@, detail@),
    ));
}

/// The error, if any, of a request whose input or target is blank.
fn validate_request(request: &RuntimeTaskRequest) -> (r: Option<ServerError>)
    ensures
        match r {
            Some(e) => validate_spec(request@.input, request@.target) == Some(e@),
            None => validate_spec(request@.input, request@.target) is None,
        },
{
    match &request.target {
        TaskTarget::Agent => {
            if is_blank(request.input.as_str()) {
                return Some(ServerError::bad_request("input must not be empty"));
            }
            None
        },
        TaskTarget::A2a { url } => {
            if is_blank(request.input.as_str()) {
                return Some(ServerError::bad_request("input must not be empty"));
            }
            if is_blank(url.as_str()) {
                return Some(ServerError::bad_request("a2a url must not be empty"));
            }
            None
        },
        TaskTarget::Mcp { tool_name, .. } => {
            if is_blank(tool_name.as_str()) {
                return Some(ServerError::bad_request("mcp tool name must not be empty"));
            }
            None
        },
    }
}

impl RuntimeService {
    /// Creates the session `session_id` (or a new numbered one), or touches it when it
    /// exists; see [`touch_session`].
    pub fn create_session(&mut self, session_id: Option<String>, metadata: JsonValue, now_ms: u64) -> (r:
        Result<RuntimeSession, ServerError>)
        ensures
            final(self)@ == touch_session(old(self)@, opt_view(session_id), metadata@, now_ms).0,
            r matches Ok(sess) && sess@ == touch_session(
                old(self)@,
                opt_view(session_id),
                metadata@,
                now_ms,
            ).1,
            service_wf(old(self)@) ==> service_wf(final(self)@),
    {
        let ghost s = self@;
        proof {
            if service_wf(s) {
                lemma_touch_keeps_wf(s, opt_view(session_id), metadata@, now_ms);
            }
        }
        let id = match session_id {
            Some(id) => id,
            None => {
                let n = self.next_session_id;
                self.next_session_id = bumped(n);
                let digits = u64_to_dec(n);
                concat_str("session-", digits.as_str())
            },
        };
        assert(id@ == requested_session_id(s, opt_view(session_id)));
        match self.find_session(id.as_str()) {
            Some(p) => {
                let mut sess = self.sessions[p].duplicate();
                if has_metadata(&metadata) {
                    sess.metadata = metadata;
                }
                sess.updated_at_ms = now_ms;
                let out = sess.duplicate();
                self.sessions.set(p, sess);
                assert(self@.sessions =~= s.sessions.update(p as int, out@));
                Ok(out)
            },
            None => {
                let sess = RuntimeSession {
                    session_id: id,
                    metadata,
                    task_ids: Vec::new(),
                    created_at_ms: now_ms,
                    updated_at_ms: now_ms,
                };
                assert(sess@.task_ids =~= seq![]);
                let out = sess.duplicate();
                self.sessions.push(sess);
                assert(self@.sessions =~= s.sessions.push(out@));
                Ok(out)
            },
        }
    }

    fn execute_task(
        &mut self,
        task_id: &str,
        actor: &str,
        action: &str,
        detail: Option<String>,
        now_ms: u64,
    ) -> (r: Result<RuntimeTask, ServerError>)
        ensures
            (final(self)@, task_result(r)) == execute_spec(
                old(self)@,
                task_id@,
                actor@,
                action@,
                opt_view(detail),
                now_ms,
            ),
    {
        match self.find_task(task_id) {
            None => {
                let m = concat3("task '", task_id, "' was not found");
                Err(ServerError::not_found(m.as_str()))
            },
            Some(q) => {
                let mut task = self.tasks[q].duplicate();
                task.status = TaskStatus::Running;
                task.error = None;
                task.updated_at_ms = now_ms;
                let d = match detail {
                    Some(d) => d,
                    None => String::from_str("task execution started"),
                };
                append_audit(&mut task, action, actor, d.as_str(), now_ms);
                self.store_task(task)
            },
        }
    }

    /// Submits a task; see [`submit_spec`]. A task that runs at once is returned
    /// `Running`: the caller executes its target and reports with `finish_task`.
    pub fn submit_task(&mut self, request: RuntimeTaskRequest, now_ms: u64) -> (r: Result<
        RuntimeTask,
        ServerError,
    >)
        ensures
            (final(self)@, task_result(r)) == submit_spec(old(self)@, request@, now_ms),
            service_wf(old(self)@) ==> service_wf(final(self)@),
    {
        let ghost s = self@;
        let ghost rv = request@;
        if let Some(e) = validate_request(&request) {
            return Err(e);
        }
        let decision = self.policy_engine.evaluate(request.input.as_str());
        let ghost d = decision@;
        if let PolicyDecision::Deny { reason, .. } = &decision {
            self.policy_rejections = bumped(self.policy_rejections);
            return Err(ServerError::forbidden(reason.as_str()));
        }
        let RuntimeTaskRequest { session_id, input, target, requires_approval, start_paused, metadata } =
            request;
        let meta_copy = metadata.duplicate();
        let session = match self.create_session(session_id, meta_copy, now_ms) {
            Ok(sess) => sess,
            Err(e) => return Err(e),
        };
        let ghost s1 = self@;
        proof {
            if service_wf(s) {
                lemma_touch_keeps_wf(s, rv.session_id, rv.metadata, now_ms);
            }
        }
        let task_digits = u64_to_dec(self.next_task_id);
        let task_id = concat_str("task-", task_digits.as_str());
        let run_digits = u64_to_dec(self.next_run_id);
        let run_id = concat_str("run-", run_digits.as_str());
        self.next_task_id = bumped(self.next_task_id);
        self.next_run_id = bumped(self.next_run_id);
        let ghost s2 = self@;
        let input_tokens = estimate_tokens(input.as_str());
        let created_detail = concat_str("protocol=", target.label());
        let mut trail: Vec<AuditRecord> = Vec::new();
        trail.push(
            AuditRecord {
                timestamp_ms: now_ms,
                action: String::from_str("task.created"),
                actor: String::from_str("system"),
                detail: created_detail,
            },
        );
        let mut task = RuntimeTask {
            task_id,
            session_id: session.session_id,
            run_id,
            input,
            target,
            status: TaskStatus::Running,
            requires_approval,
            approval_reason: None,
            output: None,
            error: None,
            metadata,
            token_usage: TokenUsage { input_tokens, output_tokens: 0 },
            audit_trail: trail,
            created_at_ms: now_ms,
            updated_at_ms: now_ms,
        };
        assert(audits_view(task.audit_trail@) =~= seq![
            audit(now_ms, "task.created"@, "system"@, "protocol="@ + label_spec(rv.target)),
        ]);
        assert(task@ == new_task_spec(s1, touch_session(s, rv.session_id, rv.metadata, now_ms).1.session_id, rv, now_ms));
        if let PolicyDecision::RequireApproval { reason, .. } = decision {
            task.requires_approval = true;
            task.approval_reason = Some(reason.clone());
            task.status = TaskStatus::PendingApproval;
            append_audit(&mut task, "task.awaiting_approval", "policy", reason.as_str(), now_ms);
            let ghost t = task@;
            let r = self.store_task(task);
            proof {
                if service_wf(s) && store_spec(s2, t) is Ok {
                    lemma_store_keeps_wf(s2, t);
                }
            }
            return r;
        }
        let ghost t0 = task@;
        if requires_approval {
            task.status = TaskStatus::PendingApproval;
            task.approval_reason = Some(String::from_str("manual approval requested"));
            append_audit(
                &mut task,
                "task.awaiting_approval",
                "user",
                "request marked as approval-gated",
                now_ms,
            );
            let ghost t = task@;
            let r = self.store_task(task);
            proof {
                if service_wf(s) && store_spec(s2, t) is Ok {
                    lemma_store_keeps_wf(s2, t);
                }
            }
            return r;
        }
        if start_paused {
            task.status = TaskStatus::Interrupted;
            append_audit(&mut task, "task.interrupted", "system", "task created in paused state", now_ms);
            let ghost t = task@;
            let r = self.store_task(task);
            proof {
                if service_wf(s) && store_spec(s2, t) is Ok {
                    lemma_store_keeps_wf(s2, t);
                }
            }
            return r;
        }
        let tid = task.task_id.clone();
        let ghost t = task@;
        match self.store_task(task) {
            Err(e) => return Err(e),
            Ok(_) => {},
        }
        let ghost s3 = self@;
        proof {
            if service_wf(s) {
                lemma_store_keeps_wf(s2, t);
            }
        }
        let r = self.execute_task(tid.as_str(), "system", "task.executed", None, now_ms);
        proof {
            if service_wf(s) {
                let q = task_pos(s3.tasks, t.task_id);
                if q >= 0 {
                    let t2 = start_spec(s3.tasks[q], "system"@, "task.executed"@, None, now_ms);
                    if store_spec(s3, t2) is Ok {
                        lemma_store_keeps_wf(s3, t2);
                    }
                }
            }
        }
        r
    }

    /// The session `session_id`, if known.
    pub fn get_session(&self, session_id: &str) -> (r: Option<RuntimeSession>)
        ensures
            match r {
                Some(sess) => session_pos(self@.sessions, session_id@) >= 0 && sess@
                    == self@.sessions[session_pos(self@.sessions, session_id@)],
                None => session_pos(self@.sessions, session_id@) == -1,
            },
    {
        match self.find_session(session_id) {
            Some(p) => Some(self.sessions[p].duplicate()),
            None => None,
        }
    }

    /// The task `task_id`, if known.
    pub fn get_task(&self, task_id: &str) -> (r: Option<RuntimeTask>)
        ensures
            match r {
                Some(t) => task_pos(self@.tasks, task_id@) >= 0 && t@ == self@.tasks[task_pos(
                    self@.tasks,
                    task_id@,
                )],
                None => task_pos(self@.tasks, task_id@) == -1,
            },
    {
        match self.find_task(task_id) {
            Some(q) => Some(self.tasks[q].duplicate()),
            None => None,
        }
    }

    /// Interrupts a task that waits for approval or is already interrupted; see
    /// [`interrupt_spec`].
    pub fn interrupt_task(&mut self, task_id: &str, request: ActionRequest, now_ms: u64) -> (r:
        Result<RuntimeTask, ServerError>)
        ensures
            (final(self)@, task_result(r)) == interrupt_spec(
                old(self)@,
                task_id@,
                opt_view(request.actor),
                opt_view(request.comment),
                now_ms,
            ),
            service_wf(old(self)@) ==> service_wf(final(self)@),
    {
        let q = match self.find_task(task_id) {
            Some(q) => q,
            None => {
                let m = concat3("task '", task_id, "' was not found");
                return Err(ServerError::not_found(m.as_str()));
            },
        };
        let status = self.tasks[q].status;
        if status == TaskStatus::Completed || status == TaskStatus::Failed {
            return Err(ServerError::conflict("cannot interrupt a completed task"));
        }
        if status == TaskStatus::Running {
            return Err(
                ServerError::conflict(
                    "running tasks are synchronous; create them paused or approval-gated to resume later",
                ),
            );
        }
        let mut task = self.tasks[q].duplicate();
        task.status = TaskStatus::Interrupted;
        task.updated_at_ms = now_ms;
        let actor = actor_or_system(&request.actor);
        let detail = match request.comment {
            Some(c) => c,
            None => String::from_str("task interrupted before execution"),
        };
        append_audit(&mut task, "task.interrupted", actor.as_str(), detail.as_str(), now_ms);
        let ghost s = self@;
        let ghost t = task@;
        let r = self.store_task(task);
        proof {
            if service_wf(s) && store_spec(s, t) is Ok {
                lemma_store_keeps_wf(s, t);
            }
        }
        r
    }

    /// Approves a task that waits for approval and starts it; see [`approve_spec`].
    pub fn approve_task(&mut self, task_id: &str, request: ActionRequest, now_ms: u64) -> (r:
        Result<RuntimeTask, ServerError>)
        ensures
            (final(self)@, task_result(r)) == approve_spec(
                old(self)@,
                task_id@,
                opt_view(request.actor),
                opt_view(request.comment),
                now_ms,
            ),
            service_wf(old(self)@) ==> service_wf(final(self)@),
    {
        let q = match self.find_task(task_id) {
            Some(q) => q,
            None => {
                let m = concat3("task '", task_id, "' was not found");
                return Err(ServerError::not_found(m.as_str()));
            },
        };
        if self.tasks[q].status != TaskStatus::PendingApproval {
            return Err(ServerError::conflict("task is not awaiting approval"));
        }
        let actor = actor_or_system(&request.actor);
        let ghost s = self@;
        let r = self.execute_task(task_id, actor.as_str(), "task.approved", request.comment, now_ms);
        proof {
            self.lemma_execute_wf(s, task_id@, actor@, "task.approved"@, opt_view(request.comment), now_ms);
        }
        r
    }

    /// Resumes an interrupted task and starts it; see [`resume_spec`].
    pub fn resume_task(&mut self, task_id: &str, request: ActionRequest, now_ms: u64) -> (r: Result<
        RuntimeTask,
        ServerError,
    >)
        ensures
            (final(self)@, task_result(r)) == resume_spec(
                old(self)@,
                task_id@,
                opt_view(request.actor),
                opt_view(request.comment),
                now_ms,
            ),
            service_wf(old(self)@) ==> service_wf(final(self)@),
    {
        let q = match self.find_task(task_id) {
            Some(q) => q,
            None => {
                let m = concat3("task '", task_id, "' was not found");
                return Err(ServerError::not_found(m.as_str()));
            },
        };
        if self.tasks[q].status != TaskStatus::Interrupted {
            return Err(ServerError::conflict("task is not interrupted"));
        }
        let actor = actor_or_system(&request.actor);
        let ghost s = self@;
        let r = self.execute_task(task_id, actor.as_str(), "task.resumed", request.comment, now_ms);
        proof {
            self.lemma_execute_wf(s, task_id@, actor@, "task.resumed"@, opt_view(request.comment), now_ms);
        }
        r
    }

    proof fn lemma_execute_wf(
        &self,
        s: ServiceView,
        id: Seq<char>,
        actor: Seq<char>,
        action: Seq<char>,
        detail: Option<Seq<char>>,
        now: u64,
    )
        requires
            self@ == execute_spec(s, id, actor, action, detail, now).0,
        ensures
            service_wf(s) ==> service_wf(self@),
    {
        let q = task_pos(s.tasks, id);
        if service_wf(s) && q >= 0 {
            lemma_key_pos(task_ids_of(s.tasks), id);
            let t = start_spec(s.tasks[q], actor, action, detail, now);
            if store_spec(s, t) is Ok {
                lemma_store_keeps_wf(s, t);
            }
        }
    }

    /// Records how the execution of a task ended: its output, or the error message; see
    /// [`finish_spec`].
    pub fn finish_task(&mut self, task_id: &str, outcome: Result<String, String>, now_ms: u64) -> (r:
        Result<RuntimeTask, ServerError>)
        ensures
            (final(self)@, task_result(r)) == finish_spec(
                old(self)@,
                task_id@,
                outcome_view(outcome),
                now_ms,
            ),
            service_wf(old(self)@) ==> service_wf(final(self)@),
    {
        let q = match self.find_task(task_id) {
            Some(q) => q,
            None => {
                let m = concat3("task '", task_id, "' was not found");
                return Err(ServerError::not_found(m.as_str()));
            },
        };
        let mut task = self.tasks[q].duplicate();
        match outcome {
            Ok(output) => {
                let n = estimate_tokens(output.as_str());
                task.status = TaskStatus::Completed;
                task.output = Some(output);
                task.error = None;
                task.token_usage = TokenUsage {
                    input_tokens: task.token_usage.input_tokens,
                    output_tokens: n,
                };
                task.updated_at_ms = now_ms;
                let digits = u64_to_dec(n);
                let detail = concat_str("output_tokens=", digits.as_str());
                append_audit(&mut task, "task.completed", "runtime", detail.as_str(), now_ms);
            },
            Err(message) => {
                task.status = TaskStatus::Failed;
                task.updated_at_ms = now_ms;
                append_audit(&mut task, "task.failed", "runtime", message.as_str(), now_ms);
                task.error = Some(message);
            },
        }
        let ghost s = self@;
        let ghost t = task@;
        let r = self.store_task(task);
        proof {
            if service_wf(s) && store_spec(s, t) is Ok {
                lemma_store_keeps_wf(s, t);
            }
        }
        r
    }

    /// Counters over all sessions and tasks; see [`metrics_spec`].
    pub fn metrics_snapshot(&self) -> (m: MetricsSnapshot)
        ensures
            m == metrics_spec(self@),
    {
        let ghost ts = self@.tasks;
        let mut completed: u64 = 0;
        let mut failed: u64 = 0;
        let mut interrupted: u64 = 0;
        let mut pending: u64 = 0;
        let mut input_total: u64 = 0;
        let mut output_total: u64 = 0;
        let mut i: usize = 0;
        while i < self.tasks.len()
            invariant
                i <= self.tasks@.len(),
                ts == self@.tasks,
                ts.len() == self.tasks@.len(),
                completed == count_status(ts.take(i as int), TaskStatus::Completed),
                failed == count_status(ts.take(i as int), TaskStatus::Failed),
                interrupted == count_status(ts.take(i as int), TaskStatus::Interrupted),
                pending == count_status(ts.take(i as int), TaskStatus::PendingApproval),
                completed <= i && failed <= i && interrupted <= i && pending <= i,
                input_total as int == total_input_tokens(ts.take(i as int)) % token_modulus(),
                output_total as int == total_output_tokens(ts.take(i as int)) % token_modulus(),
            decreases self.tasks@.len() - i,
        {
            let t = &self.tasks[i];
            let ghost prefix = ts.take(i as int);
            assert(ts.take(i + 1).drop_last() =~= prefix);
            assert(ts.take(i + 1).last() == t@);
            proof {
                lemma_add_mod_noop_right(
                    t.token_usage.input_tokens as int,
                    total_input_tokens(prefix) as int,
                    token_modulus() as int,
                );
                lemma_add_mod_noop_right(
                    t.token_usage.output_tokens as int,
                    total_output_tokens(prefix) as int,
                    token_modulus() as int,
                );
            }
            input_total = wrap_add(input_total, t.token_usage.input_tokens);
            output_total = wrap_add(output_total, t.token_usage.output_tokens);
            match t.status {
                TaskStatus::Completed => completed = completed + 1,
                TaskStatus::Failed => failed = failed + 1,
                TaskStatus::Interrupted => interrupted = interrupted + 1,
                TaskStatus::PendingApproval => pending = pending + 1,
                TaskStatus::Running => {},
            }
            i = i + 1;
        }
        assert(ts.take(i as int) =~= ts);
        MetricsSnapshot {
            sessions_total: self.sessions.len() as u64,
            tasks_total: self.tasks.len() as u64,
            tasks_completed_total: completed,
            tasks_failed_total: failed,
            tasks_interrupted_current: interrupted,
            tasks_pending_approval_current: pending,
            policy_rejections_total: self.policy_rejections,
            input_tokens_total: input_total,
            output_tokens_total: output_total,
        }
    }

    /// The counters in the Prometheus text format; see [`prometheus_spec`].
    pub fn metrics_prometheus(&self) -> (s: String)
        ensures
            s@ == prometheus_spec(metrics_spec(self@)),
    {
        let m = self.metrics_snapshot();
        let mut out = String::new();
        push_metric(&mut out, "nuro_sessions_total", "gauge", m.sessions_total);
        push_metric(&mut out, "nuro_tasks_total", "gauge", m.tasks_total);
        push_metric(&mut out, "nuro_tasks_completed_total", "counter", m.tasks_completed_total);
        push_metric(&mut out, "nuro_tasks_failed_total", "counter", m.tasks_failed_total);
        push_metric(&mut out, "nuro_tasks_interrupted_current", "gauge", m.tasks_interrupted_current);
        push_metric(
            &mut out,
            "nuro_tasks_pending_approval_current",
            "gauge",
            m.tasks_pending_approval_current,
        );
        push_metric(&mut out, "nuro_policy_rejections_total", "counter", m.policy_rejections_total);
        push_metric(&mut out, "nuro_input_tokens_total", "counter", m.input_tokens_total);
        push_metric(&mut out, "nuro_output_tokens_total", "counter", m.output_tokens_total);
        proof {
            reveal_strlit("nuro_sessions_total");
        }
        assert(out@ =~= prometheus_spec(m));
        out
    }

    /// The answer to a replay request, given the replay's result; see
    /// [`replay_response_spec`].
    pub fn replay_response(
        &self,
        session_id: &str,
        run_id: Option<String>,
        mode: ReplayMode,
        replayed: Result<ReplayResult, NuroError>,
    ) -> (r: Result<ReplayResponse, ServerError>)
        ensures
            response_view(r) == replay_response_spec(
                self@,
                session_id@,
                opt_view(run_id),
                mode,
                replay_view(replayed),
            ),
    {
        match replayed {
            Err(e) => Err(ServerError::from_error(e)),
            Ok(res) => {
                if res.events.len() == 0 && self.find_session(session_id).is_none() {
                    let m = concat3("session '", session_id, "' was not found");
                    return Err(ServerError::not_found(m.as_str()));
                }
                Ok(
                    ReplayResponse {
                        session_id: String::from_str(session_id),
                        run_id,
                        mode: String::from_str(replay_mode_name(mode)),
                        events: res.events,
                        warnings: res.warnings,
                    },
                )
            },
        }
    }

    /// Replays a session (or one of its runs) from `store` and answers with its events
    /// and warnings: the store is asked for the events of run `run_id` of the session
    /// when a run is given, else for those of the session, and the answer is
    /// [`replay_response_spec`] of what [`replay_outcome`] makes of the store's result.
    pub fn replay_session<S: EventStore>(
        &self,
        store: &S,
        session_id: &str,
        run_id: Option<&str>,
        mode: ReplayMode,
    ) -> (r: Result<ReplayResponse, ServerError>)
        ensures
            exists|listed: Result<Vec<Event>, NuroError>|
                #![trigger replay_outcome(listed, mode)]
                {
                    &&& match run_id {
                        Some(run) => call_ensures(S::list_by_session_run, (store, session_id, run), listed),
                        None => call_ensures(S::list_by_session, (store, session_id), listed),
                    }
                    &&& response_view(r) == replay_response_spec(
                        self@,
                        session_id@,
                        str_opt_view(run_id),
                        mode,
                        replay_outcome(listed, mode),
                    )
                },
    {
        let listed = match run_id {
            Some(run) => store.list_by_session_run(session_id, run),
            None => store.list_by_session(session_id),
        };
        let ghost lv = listed;
        let replayed = match listed {
            Ok(events) => validate_events(events, mode),
            Err(e) => Err(e),
        };
        let ghost rv = replay_view(replayed);
        assert(rv == replay_outcome(lv, mode));
        let owned_run = match run_id {
            Some(run) => Some(String::from_str(run)),
            None => None,
        };
        let r = self.replay_response(session_id, owned_run, mode, replayed);
        assert(replay_response_spec(self@, session_id@, str_opt_view(run_id), mode, rv) == response_view(r));
        r
    }

    /// The session `session_id`, or a 404 error `session '<id>' was not found`.
    pub fn require_session(&self, session_id: &str) -> (r: Result<RuntimeSession, ServerError>)
        ensures
            match r {
                Ok(sess) => session_pos(self@.sessions, session_id@) >= 0 && sess@
                    == self@.sessions[session_pos(self@.sessions, session_id@)],
                Err(e) => session_pos(self@.sessions, session_id@) == -1 && e@ == session_not_found(
                    session_id@,
                ),
            },
    {
        match self.get_session(session_id) {
            Some(s) => Ok(s),
            None => {
                let m = concat3("session '", session_id, "' was not found");
                Err(ServerError::not_found(m.as_str()))
            },
        }
    }

    /// The task `task_id`, or a 404 error `task '<id>' was not found`.
    pub fn require_task(&self, task_id: &str) -> (r: Result<RuntimeTask, ServerError>)
        ensures
            match r {
                Ok(t) => task_pos(self@.tasks, task_id@) >= 0 && t@ == self@.tasks[task_pos(
                    self@.tasks,
                    task_id@,
                )],
                Err(e) => task_pos(self@.tasks, task_id@) == -1 && e@ == task_not_found(task_id@),
            },
    {
        match self.get_task(task_id) {
            Some(t) => Ok(t),
            None => {
                let m = concat3("task '", task_id, "' was not found");
                Err(ServerError::not_found(m.as_str()))
            },
        }
    }
}

} // verus!
