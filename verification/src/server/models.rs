//! Records kept by the task runtime: sessions, tasks, audit entries and metrics.
use vstd::prelude::*;

use crate::error::{duplicate_opt, opt_view};
use crate::event::{events_view, Event, EventView};
use crate::json::{Json, JsonValue};
use crate::text::views;

verus! {

/// Where a task is executed.
#[derive(Debug)]
pub enum TaskTarget {
    Agent,
    A2a { url: String },
    Mcp { tool_name: String, arguments: JsonValue },
}

/// The model of a task target.
pub ghost enum TargetView {
    Agent,
    A2a { url: Seq<char> },
    Mcp { tool_name: Seq<char>, arguments: Json },
}

impl View for TaskTarget {
    type V = TargetView;

    open spec fn view(&self) -> TargetView {
        match self {
            TaskTarget::Agent => TargetView::Agent,
            TaskTarget::A2a { url } => TargetView::A2a { url: url@ },
            TaskTarget::Mcp { tool_name, arguments } => TargetView::Mcp {
                tool_name: tool_name@,
                arguments: arguments@,
            },
        }
    }
}

/// The protocol name of a target.
pub open spec fn label_spec(t: TargetView) -> Seq<char> {
    match t {
        TargetView::Agent => "agent"@,
        TargetView::A2a { .. } => "a2a"@,
        TargetView::Mcp { .. } => "mcp"@,
    }
}

impl TaskTarget {
    /// The protocol name: `agent`, `a2a` or `mcp`.
    pub fn label(&self) -> (s: &'static str)
        ensures
            s@ == label_spec(self@),
    {
        match self {
            TaskTarget::Agent => "agent",
            TaskTarget::A2a { .. } => "a2a",
            TaskTarget::Mcp { .. } => "mcp",
        }
    }

    /// The default target: the local agent.
    pub fn default_target() -> (t: TaskTarget)
        ensures
            t@ == TargetView::Agent,
    {
        TaskTarget::Agent
    }

    /// A deep copy of the target.
    pub fn duplicate(&self) -> (r: TaskTarget)
        ensures
            r@ == self@,
    {
        match self {
            TaskTarget::Agent => TaskTarget::Agent,
            TaskTarget::A2a { url } => TaskTarget::A2a { url: url.clone() },
            TaskTarget::Mcp { tool_name, arguments } => TaskTarget::Mcp {
                tool_name: tool_name.clone(),
                arguments: arguments.duplicate(),
            },
        }
    }
}

/// A request to create (or touch) a session.
#[derive(Debug)]
pub struct SessionCreateRequest {
    pub session_id: Option<String>,
    pub metadata: JsonValue,
}

/// A session and the tasks submitted in it.
#[derive(Debug)]
pub struct RuntimeSession {
    pub session_id: String,
    pub metadata: JsonValue,
    pub task_ids: Vec<String>,
    pub created_at_ms: u64,
    pub updated_at_ms: u64,
}

/// The model of a session.
pub ghost struct SessionView {
    pub session_id: Seq<char>,
    pub metadata: Json,
    pub task_ids: Seq<Seq<char>>,
    pub created_at_ms: u64,
    pub updated_at_ms: u64,
}

impl View for RuntimeSession {
    type V = SessionView;

    open spec fn view(&self) -> SessionView {
        SessionView {
            session_id: self.session_id@,
            metadata: self.metadata@,
            task_ids: views(self.task_ids@),
            created_at_ms: self.created_at_ms,
            updated_at_ms: self.updated_at_ms,
        }
    }
}

/// A deep copy of a list of strings.
pub fn duplicate_strings(v: &Vec<String>) -> (r: Vec<String>)
    ensures
        views(r@) == views(v@),
{
    let mut out: Vec<String> = Vec::new();
    let mut i: usize = 0;
    while i < v.len()
        invariant
            i <= v@.len(),
            out@.len() == i,
            forall|k: int| 0 <= k < i ==> #[trigger] out@[k]@ == v@[k]@,
        decreases v@.len() - i,
    {
        out.push(v[i].clone());
        i = i + 1;
    }
    assert(views(out@) =~= views(v@));
    out
}

impl RuntimeSession {
    /// A deep copy of the session.
    pub fn duplicate(&self) -> (r: RuntimeSession)
        ensures
            r@ == self@,
    {
        RuntimeSession {
            session_id: self.session_id.clone(),
            metadata: self.metadata.duplicate(),
            task_ids: duplicate_strings(&self.task_ids),
            created_at_ms: self.created_at_ms,
            updated_at_ms: self.updated_at_ms,
        }
    }
}

/// A request to run a task.
#[derive(Debug)]
pub struct RuntimeTaskRequest {
    pub session_id: Option<String>,
    pub input: String,
    pub target: TaskTarget,
    pub requires_approval: bool,
    pub start_paused: bool,
    pub metadata: JsonValue,
}

/// The model of a task request.
pub ghost struct RequestView {
    pub session_id: Option<Seq<char>>,
    pub input: Seq<char>,
    pub target: TargetView,
    pub requires_approval: bool,
    pub start_paused: bool,
    pub metadata: Json,
}

impl View for RuntimeTaskRequest {
    type V = RequestView;

    open spec fn view(&self) -> RequestView {
        RequestView {
            session_id: opt_view(self.session_id),
            input: self.input@,
            target: self.target@,
            requires_approval: self.requires_approval,
            start_paused: self.start_paused,
            metadata: self.metadata@,
        }
    }
}

/// Where a task is in its lifecycle.
#[derive(PartialEq, Eq, Structural, Clone, Copy, Debug)]
pub enum TaskStatus {
    PendingApproval,
    Interrupted,
    Running,
    Completed,
    Failed,
}

/// Estimated token counts of a task's input and output.
#[derive(PartialEq, Eq, Structural, Clone, Copy, Debug)]
pub struct TokenUsage {
    pub input_tokens: u64,
    pub output_tokens: u64,
}

/// One entry of a task's audit trail.
#[derive(Debug)]
pub struct AuditRecord {
    pub timestamp_ms: u64,
    pub action: String,
    pub actor: String,
    pub detail: String,
}

/// The model of an audit entry.
pub ghost struct AuditView {
    pub timestamp_ms: u64,
    pub action: Seq<char>,
    pub actor: Seq<char>,
    pub detail: Seq<char>,
}

impl View for AuditRecord {
    type V = AuditView;

    open spec fn view(&self) -> AuditView {
        AuditView {
            timestamp_ms: self.timestamp_ms,
            action: self.action@,
            actor: self.actor@,
            detail: self.detail@,
        }
    }
}

/// The models of an audit trail.
pub open spec fn audits_view(v: Seq<AuditRecord>) -> Seq<AuditView> {
    v.map_values(|a: AuditRecord| a@)
}

/// A task and everything known about its run.
#[derive(Debug)]
pub struct RuntimeTask {
    pub task_id: String,
    pub session_id: String,
    pub run_id: String,
    pub input: String,
    pub target: TaskTarget,
    pub status: TaskStatus,
    pub requires_approval: bool,
    pub approval_reason: Option<String>,
    pub output: Option<String>,
    pub error: Option<String>,
    pub metadata: JsonValue,
    pub token_usage: TokenUsage,
    pub audit_trail: Vec<AuditRecord>,
    pub created_at_ms: u64,
    pub updated_at_ms: u64,
}

/// The model of a task.
pub ghost struct TaskView {
    pub task_id: Seq<char>,
    pub session_id: Seq<char>,
    pub run_id: Seq<char>,
    pub input: Seq<char>,
    pub target: TargetView,
    pub status: TaskStatus,
    pub requires_approval: bool,
    pub approval_reason: Option<Seq<char>>,
    pub output: Option<Seq<char>>,
    pub error: Option<Seq<char>>,
    pub metadata: Json,
    pub token_usage: TokenUsage,
    pub audit_trail: Seq<AuditView>,
    pub created_at_ms: u64,
    pub updated_at_ms: u64,
}

impl View for RuntimeTask {
    type V = TaskView;

    open spec fn view(&self) -> TaskView {
        TaskView {
            task_id: self.task_id@,
            session_id: self.session_id@,
            run_id: self.run_id@,
            input: self.input@,
            target: self.target@,
            status: self.status,
            requires_approval: self.requires_approval,
            approval_reason: opt_view(self.approval_reason),
            output: opt_view(self.output),
            error: opt_view(self.error),
            metadata: self.metadata@,
            token_usage: self.token_usage,
            audit_trail: audits_view(self.audit_trail@),
            created_at_ms: self.created_at_ms,
            updated_at_ms: self.updated_at_ms,
        }
    }
}

impl AuditRecord {
    /// A deep copy of the entry.
    pub fn duplicate(&self) -> (r: AuditRecord)
        ensures
            r@ == self@,
    {
        AuditRecord {
            timestamp_ms: self.timestamp_ms,
            action: self.action.clone(),
            actor: self.actor.clone(),
            detail: self.detail.clone(),
        }
    }
}

impl RuntimeTask {
    /// A deep copy of the task.
    pub fn duplicate(&self) -> (r: RuntimeTask)
        ensures
            r@ == self@,
    {
        let mut trail: Vec<AuditRecord> = Vec::new();
        let mut i: usize = 0;
        while i < self.audit_trail.len()
            invariant
                i <= self.audit_trail@.len(),
                trail@.len() == i,
                forall|k: int| 0 <= k < i ==> #[trigger] trail@[k]@ == self.audit_trail@[k]@,
            decreases self.audit_trail@.len() - i,
        {
            trail.push(self.audit_trail[i].duplicate());
            i = i + 1;
        }
        assert(audits_view(trail@) =~= audits_view(self.audit_trail@));
        RuntimeTask {
            task_id: self.task_id.clone(),
            session_id: self.session_id.clone(),
            run_id: self.run_id.clone(),
            input: self.input.clone(),
            target: self.target.duplicate(),
            status: self.status,
            requires_approval: self.requires_approval,
            approval_reason: duplicate_opt(&self.approval_reason),
            output: duplicate_opt(&self.output),
            error: duplicate_opt(&self.error),
            metadata: self.metadata.duplicate(),
            token_usage: self.token_usage,
            audit_trail: trail,
            created_at_ms: self.created_at_ms,
            updated_at_ms: self.updated_at_ms,
        }
    }
}

/// Who acts on a task and why.
#[derive(Debug)]
pub struct ActionRequest {
    pub actor: Option<String>,
    pub comment: Option<String>,
}

/// The events of a session (or of one run in it), as replayed.
#[derive(Debug)]
pub struct ReplayResponse {
    pub session_id: String,
    pub run_id: Option<String>,
    pub mode: String,
    pub events: Vec<Event>,
    pub warnings: Vec<String>,
}

/// The model of a replay response.
pub ghost struct ResponseView {
    pub session_id: Seq<char>,
    pub run_id: Option<Seq<char>>,
    pub mode: Seq<char>,
    pub events: Seq<EventView>,
    pub warnings: Seq<Seq<char>>,
}

impl View for ReplayResponse {
    type V = ResponseView;

    open spec fn view(&self) -> ResponseView {
        ResponseView {
            session_id: self.session_id@,
            run_id: opt_view(self.run_id),
            mode: self.mode@,
            events: events_view(self.events@),
            warnings: views(self.warnings@),
        }
    }
}

/// Counters over all sessions and tasks.
#[derive(PartialEq, Eq, Structural, Clone, Copy, Debug)]
pub struct MetricsSnapshot {
    pub sessions_total: u64,
    pub tasks_total: u64,
    pub tasks_completed_total: u64,
    pub tasks_failed_total: u64,
    pub tasks_interrupted_current: u64,
    pub tasks_pending_approval_current: u64,
    pub policy_rejections_total: u64,
    pub input_tokens_total: u64,
    pub output_tokens_total: u64,
}

} // verus!
