//! Properties of the task runtime that span its operations: what a task can go through,
//! what is stored, and when a submission succeeds.
use vstd::prelude::*;

use crate::json::Json;
use crate::server::models::{RequestView, SessionView, TaskStatus, TaskView};
use crate::server::policy::{decide, DecisionView};
use crate::server::service::{
    admitted_spec, approve_spec, bump, count_status, err, execute_spec, finish_spec, metrics_spec,
    interrupt_spec, lemma_key_pos, lemma_store_keeps_wf, lemma_touch_keeps_wf, new_task_spec,
    requested_session_id, resume_spec, runs_at_once, service_wf, session_ids, session_pos,
    start_spec, store_spec, submit_spec, task_ids_of, task_pos, touch_session, validate_spec,
    ServiceView,
};

verus! {

/// The task `t` is stored under its identifier, and its session lists it.
pub open spec fn holds_task(s: ServiceView, t: TaskView) -> bool {
    &&& task_pos(s.tasks, t.task_id) >= 0
    &&& s.tasks[task_pos(s.tasks, t.task_id)] == t
    &&& session_pos(s.sessions, t.session_id) >= 0
    &&& s.sessions[session_pos(s.sessions, t.session_id)].task_ids.contains(t.task_id)
}

/// A stored task is what a lookup of its identifier gives back.
pub proof fn lemma_store_then_get(s: ServiceView, t: TaskView)
    requires
        service_wf(s),
        store_spec(s, t) is Ok,
    ensures
        service_wf(store_spec(s, t)->Ok_0),
        holds_task(store_spec(s, t)->Ok_0, t),
{
    let s2 = store_spec(s, t)->Ok_0;
    lemma_store_keeps_wf(s, t);
    lemma_key_pos(task_ids_of(s.tasks), t.task_id);
    lemma_key_pos(session_ids(s.sessions), t.session_id);
    let q = task_pos(s.tasks, t.task_id);
    let i = if q >= 0 {
        q
    } else {
        s.tasks.len() as int
    };
    assert(s2.tasks[i] == t);
    assert(task_ids_of(s2.tasks)[i] == t.task_id);
    lemma_key_pos(task_ids_of(s2.tasks), t.task_id);
    assert(task_pos(s2.tasks, t.task_id) == i);
}

/// The session that touching gives back is stored under its identifier.
pub proof fn lemma_touch_then_get(s: ServiceView, session_id: Option<Seq<char>>, metadata: Json, now: u64)
    requires
        service_wf(s),
    ensures
        ({
            let (s1, sess) = touch_session(s, session_id, metadata, now);
            &&& service_wf(s1)
            &&& session_pos(s1.sessions, sess.session_id) >= 0
            &&& s1.sessions[session_pos(s1.sessions, sess.session_id)] == sess
            &&& s1.tasks == s.tasks
        }),
{
    let (s1, sess) = touch_session(s, session_id, metadata, now);
    lemma_touch_keeps_wf(s, session_id, metadata, now);
    let id = requested_session_id(s, session_id);
    lemma_key_pos(session_ids(s.sessions), id);
    let p = session_pos(s.sessions, id);
    let i = if p >= 0 {
        p
    } else {
        s.sessions.len() as int
    };
    assert(s1.sessions[i] == sess);
    assert(session_ids(s1.sessions)[i] == id);
    lemma_key_pos(session_ids(s1.sessions), id);
}

/// Touching a known session adds none: the number of sessions stays the same.
pub proof fn lemma_touch_known_session(s: ServiceView, id: Seq<char>, metadata: Json, now: u64)
    requires
        session_pos(s.sessions, id) >= 0,
    ensures
        touch_session(s, Some(id), metadata, now).0.sessions.len() == s.sessions.len(),
        touch_session(s, Some(id), metadata, now).1.session_id == id,
        touch_session(s, Some(id), metadata, now).1.created_at_ms
            == s.sessions[session_pos(s.sessions, id)].created_at_ms,
        touch_session(s, Some(id), metadata, now).1.task_ids
            == s.sessions[session_pos(s.sessions, id)].task_ids,
{
    lemma_key_pos(session_ids(s.sessions), id);
}

/// A submission that is not blank and that no policy denies always succeeds, and the task
/// it returns is the one stored. It runs at once only when nothing holds it.
pub proof fn lemma_submit_succeeds(s: ServiceView, r: RequestView, now: u64)
    requires
        service_wf(s),
        validate_spec(r.input, r.target) is None,
        !(decide(s.rules, r.input) is Deny),
    ensures
        submit_spec(s, r, now).1 is Ok,
        service_wf(submit_spec(s, r, now).0),
        holds_task(submit_spec(s, r, now).0, submit_spec(s, r, now).1->Ok_0),
        submit_spec(s, r, now).1->Ok_0.status == (if runs_at_once(decide(s.rules, r.input), r) {
            TaskStatus::Running
        } else if decide(s.rules, r.input) is Allow && !r.requires_approval {
            TaskStatus::Interrupted
        } else {
            TaskStatus::PendingApproval
        }),
{
    let d = decide(s.rules, r.input);
    let (s1, sess) = touch_session(s, r.session_id, r.metadata, now);
    lemma_touch_then_get(s, r.session_id, r.metadata, now);
    let s2 = ServiceView { next_task_id: bump(s1.next_task_id), next_run_id: bump(s1.next_run_id), ..s1 };
    let t = admitted_spec(new_task_spec(s1, sess.session_id, r, now), d, r, now);
    assert(session_pos(s2.sessions, t.session_id) >= 0);
    assert(store_spec(s2, t) is Ok);
    lemma_store_then_get(s2, t);
    let s3 = store_spec(s2, t)->Ok_0;
    if runs_at_once(d, r) {
        let q = task_pos(s3.tasks, t.task_id);
        let t2 = start_spec(s3.tasks[q], "system"@, "task.executed"@, None, now);
        assert(t2.session_id == t.session_id && t2.task_id == t.task_id);
        assert(store_spec(s3, t2) is Ok);
        lemma_store_then_get(s3, t2);
    }
}

/// A denied submission stores nothing: sessions, tasks and numbering stay as they were,
/// only the rejection counter moves, and the answer is 403 with the rule's reason.
pub proof fn lemma_denied_submission(s: ServiceView, r: RequestView, now: u64)
    requires
        validate_spec(r.input, r.target) is None,
        decide(s.rules, r.input) is Deny,
    ensures
        submit_spec(s, r, now).0 == (ServiceView { policy_rejections: bump(s.policy_rejections), ..s }),
        submit_spec(s, r, now).1 == Err::<TaskView, _>(err(403, decide(s.rules, r.input)->Deny_reason)),
{
}

/// A blank request is refused with 400 and changes nothing, whatever the policies say.
pub proof fn lemma_blank_submission(s: ServiceView, r: RequestView, now: u64)
    requires
        validate_spec(r.input, r.target) is Some,
    ensures
        submit_spec(s, r, now).0 == s,
        submit_spec(s, r, now).1 == Err::<TaskView, _>(validate_spec(r.input, r.target)->Some_0),
        validate_spec(r.input, r.target)->Some_0.status == 400,
{
}

/// A request that a policy holds for approval never runs at once: it is stored waiting,
/// marked as needing approval, with the rule's reason.
pub proof fn lemma_policy_holds_for_approval(s: ServiceView, r: RequestView, now: u64)
    requires
        service_wf(s),
        validate_spec(r.input, r.target) is None,
        decide(s.rules, r.input) is RequireApproval,
    ensures
        submit_spec(s, r, now).1 matches Ok(t) && t.status == TaskStatus::PendingApproval
            && t.requires_approval && t.approval_reason == Some(
            decide(s.rules, r.input)->RequireApproval_reason,
        ),
{
    lemma_submit_succeeds(s, r, now);
}

/// Completed and failed tasks are final: interrupting, approving or resuming one is
/// refused with 409 and changes nothing.
pub proof fn lemma_finished_tasks_are_final(
    s: ServiceView,
    id: Seq<char>,
    actor: Option<Seq<char>>,
    comment: Option<Seq<char>>,
    now: u64,
)
    requires
        task_pos(s.tasks, id) >= 0,
        s.tasks[task_pos(s.tasks, id)].status == TaskStatus::Completed || s.tasks[task_pos(
            s.tasks,
            id,
        )].status == TaskStatus::Failed,
    ensures
        interrupt_spec(s, id, actor, comment, now) == (s, Err::<TaskView, _>(
            err(409, "cannot interrupt a completed task"@),
        )),
        approve_spec(s, id, actor, comment, now) == (s, Err::<TaskView, _>(
            err(409, "task is not awaiting approval"@),
        )),
        resume_spec(s, id, actor, comment, now) == (s, Err::<TaskView, _>(
            err(409, "task is not interrupted"@),
        )),
{
}

/// The transitions of a task: approval starts only a waiting task, resumption only an
/// interrupted one, interruption applies only to a waiting or interrupted task, and an
/// outcome completes or fails the task. Each successful step stores the task it returns.
pub proof fn lemma_task_transitions(
    s: ServiceView,
    id: Seq<char>,
    actor: Option<Seq<char>>,
    comment: Option<Seq<char>>,
    outcome: Result<Seq<char>, Seq<char>>,
    now: u64,
)
    requires
        service_wf(s),
    ensures
        approve_spec(s, id, actor, comment, now).1 matches Ok(t) ==> {
            &&& s.tasks[task_pos(s.tasks, id)].status == TaskStatus::PendingApproval
            &&& t.status == TaskStatus::Running
            &&& holds_task(approve_spec(s, id, actor, comment, now).0, t)
        },
        resume_spec(s, id, actor, comment, now).1 matches Ok(t) ==> {
            &&& s.tasks[task_pos(s.tasks, id)].status == TaskStatus::Interrupted
            &&& t.status == TaskStatus::Running
            &&& holds_task(resume_spec(s, id, actor, comment, now).0, t)
        },
        interrupt_spec(s, id, actor, comment, now).1 matches Ok(t) ==> {
            &&& (s.tasks[task_pos(s.tasks, id)].status == TaskStatus::PendingApproval || s.tasks[task_pos(
                s.tasks,
                id,
            )].status == TaskStatus::Interrupted)
            &&& t.status == TaskStatus::Interrupted
            &&& holds_task(interrupt_spec(s, id, actor, comment, now).0, t)
        },
        finish_spec(s, id, outcome, now).1 matches Ok(t) ==> {
            &&& t.status == (if outcome is Ok {
                TaskStatus::Completed
            } else {
                TaskStatus::Failed
            })
            &&& holds_task(finish_spec(s, id, outcome, now).0, t)
        },
        task_pos(s.tasks, id) >= 0 ==> finish_spec(s, id, outcome, now).1 is Ok,
{
    let q = task_pos(s.tasks, id);
    lemma_key_pos(task_ids_of(s.tasks), id);
    if q >= 0 {
        let t = s.tasks[q];
        assert(session_pos(s.sessions, t.session_id) >= 0);
        lemma_execute_stores(s, id, "task.approved"@, actor, comment, now);
        lemma_execute_stores(s, id, "task.resumed"@, actor, comment, now);
        let t2 = interrupt_spec(s, id, actor, comment, now).1;
        if t2 is Ok {
            lemma_store_then_get(s, t2->Ok_0);
        }
        let t3 = finish_spec(s, id, outcome, now).1;
        assert(t3 is Ok);
        lemma_store_then_get(s, t3->Ok_0);
    }
}

proof fn lemma_execute_stores(
    s: ServiceView,
    id: Seq<char>,
    action: Seq<char>,
    actor: Option<Seq<char>>,
    comment: Option<Seq<char>>,
    now: u64,
)
    requires
        service_wf(s),
        task_pos(s.tasks, id) >= 0,
    ensures
        ({
            let (s2, r) = execute_spec(
                s,
                id,
                crate::server::service::actor_spec(actor),
                action,
                comment,
                now,
            );
            r matches Ok(t) && holds_task(s2, t) && t.status == TaskStatus::Running
        }),
{
    let q = task_pos(s.tasks, id);
    lemma_key_pos(task_ids_of(s.tasks), id);
    let t = start_spec(
        s.tasks[q],
        crate::server::service::actor_spec(actor),
        action,
        comment,
        now,
    );
    assert(session_pos(s.sessions, t.session_id) >= 0);
    lemma_store_then_get(s, t);
}

/// Every task is in exactly one status: the status counts add up to the number of tasks.
pub proof fn lemma_status_counts_partition(ts: Seq<TaskView>)
    ensures
        count_status(ts, TaskStatus::PendingApproval) + count_status(ts, TaskStatus::Interrupted)
            + count_status(ts, TaskStatus::Running) + count_status(ts, TaskStatus::Completed)
            + count_status(ts, TaskStatus::Failed) == ts.len(),
    decreases ts.len(),
{
    if ts.len() > 0 {
        lemma_status_counts_partition(ts.drop_last());
    }
}

/// The tasks of `ts` whose status is `st`, in order.
pub open spec fn tasks_with_status(ts: Seq<TaskView>, st: TaskStatus) -> Seq<TaskView> {
    ts.filter(|t: TaskView| t.status == st)
}

proof fn lemma_count_is_filter(ts: Seq<TaskView>, st: TaskStatus)
    ensures
        count_status(ts, st) == tasks_with_status(ts, st).len(),
    decreases ts.len(),
{
    reveal(Seq::filter);
    if ts.len() > 0 {
        lemma_count_is_filter(ts.drop_last(), st);
    }
}

/// The metrics count what they name: the completed, failed, interrupted and waiting
/// counters are the numbers of tasks in that status, the task total is the number of
/// tasks, and the session total the number of sessions.
pub proof fn lemma_metrics_count_tasks_by_status(s: ServiceView)
    requires
        s.tasks.len() <= u64::MAX,
        s.sessions.len() <= u64::MAX,
    ensures
        metrics_spec(s).tasks_completed_total == tasks_with_status(s.tasks, TaskStatus::Completed).len(),
        metrics_spec(s).tasks_failed_total == tasks_with_status(s.tasks, TaskStatus::Failed).len(),
        metrics_spec(s).tasks_interrupted_current == tasks_with_status(s.tasks, TaskStatus::Interrupted).len(),
        metrics_spec(s).tasks_pending_approval_current == tasks_with_status(
            s.tasks,
            TaskStatus::PendingApproval,
        ).len(),
        metrics_spec(s).tasks_total == s.tasks.len(),
        metrics_spec(s).sessions_total == s.sessions.len(),
{
    lemma_count_is_filter(s.tasks, TaskStatus::Completed);
    lemma_count_is_filter(s.tasks, TaskStatus::Failed);
    lemma_count_is_filter(s.tasks, TaskStatus::Interrupted);
    lemma_count_is_filter(s.tasks, TaskStatus::PendingApproval);
    lemma_status_counts_partition(s.tasks);
}

} // verus!
