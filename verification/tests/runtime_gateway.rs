use std::cell::RefCell;

use nuro::a2a::A2aTaskBook;
use nuro::agent::{AgentInput, AgentOutput};
use nuro::error::NuroError;
use nuro::event::{Event, EventKind};
use nuro::json::JsonValue;
use nuro::llm::{LlmProvider, MockLlmProvider};
use nuro::mcp::{call_params, check_response, handle_request, tool_call_response, McpSession, McpStep, ToolInfo, ToolRun};
use nuro::runtime::agent_loop::{AgentRun, RunAction, RunEvent};
use nuro::runtime::replay::ReplayMode;
use nuro::runtime::store::EventStore;
use nuro::server::models::{ActionRequest, RuntimeTaskRequest, TaskStatus, TaskTarget};
use nuro::server::policy::{PolicyEngine, PolicyRule};
use nuro::server::service::RuntimeService;
use nuro::server::targets::{
    a2a_end_output, a2a_start_input, a2a_tool_name, agent_task_output, mcp_output_text, mcp_tool_name,
    protocol_event,
};
use nuro::tool::{CalculatorTool, ToolContext};

struct VecStore {
    events: RefCell<Vec<Event>>,
}

impl VecStore {
    fn new() -> Self {
        VecStore { events: RefCell::new(Vec::new()) }
    }
}

impl EventStore for VecStore {
    fn append(&self, event: &Event) -> Result<(), NuroError> {
        self.events.borrow_mut().push(event.duplicate());
        Ok(())
    }

    fn list_by_session(&self, session_id: &str) -> Result<Vec<Event>, NuroError> {
        Ok(self
            .events
            .borrow()
            .iter()
            .filter(|e| e.session_id.as_deref() == Some(session_id))
            .map(|e| e.duplicate())
            .collect())
    }
}

fn request(input: &str, target: TaskTarget) -> RuntimeTaskRequest {
    RuntimeTaskRequest {
        session_id: None,
        input: input.to_string(),
        target,
        requires_approval: false,
        start_paused: false,
        metadata: JsonValue::empty_object(),
    }
}

/// Runs the mock agent (with the calculator) on `input`, recording its events in the
/// session and run given.
fn drive_agent(
    input: &str,
    store: &VecStore,
    session_id: &str,
    run_id: &str,
) -> (Result<AgentOutput, NuroError>, Vec<Event>) {
    let llm = MockLlmProvider::new();
    let calculator = CalculatorTool::new();
    let prompt = Some("You are a runtime gateway bot with calculator and replay support.".to_string());
    let (mut run, mut action) = AgentRun::start(&prompt, AgentInput::text(input.to_string()), 0, 0, true);
    let mut events = Vec::new();
    let mut seq = 1u64;
    loop {
        let event = match action {
            RunAction::Emit { kind } => {
                let e = Event::with_identity(kind, 1_000 + seq, seq)
                    .with_session(Some(session_id.to_string()), Some(run_id.to_string()));
                seq += 1;
                store.append(&e).expect("append");
                events.push(e);
                RunEvent::Proceed
            }
            RunAction::CallLlm { request } => match llm.generate(request) {
                Ok(resp) => RunEvent::Replied { message: resp.message },
                Err(error) => RunEvent::Failed { error },
            },
            RunAction::LookupTool { name } => RunEvent::Found { found: name == calculator.name() },
            RunAction::ExecuteTool { input, .. } => RunEvent::ToolDone {
                result: calculator.execute(&input, &ToolContext::new()).map(|o| o.content),
            },
            RunAction::Finish { result } => return (result, events),
            RunAction::Idle => panic!("the run is over"),
            _ => RunEvent::Proceed,
        };
        action = run.step(event);
    }
}

#[test]
fn agent_tasks_are_completed_and_replayable() {
    let store = VecStore::new();
    let mut service = RuntimeService::new(PolicyEngine::new());
    let task = service.submit_task(request("calc: 2 + 2", TaskTarget::Agent), 10).expect("task");
    assert_eq!(task.status, TaskStatus::Running);
    let (result, events) = drive_agent(&task.input, &store, &task.session_id, &task.run_id);
    assert!(result.is_ok());
    let output = agent_task_output(&events);
    let task = service.finish_task(&task.task_id, Ok(output), 20).expect("finish");
    assert_eq!(task.status, TaskStatus::Completed);
    assert!(task.output.as_deref().unwrap_or_default().contains('4'));
    let replay = service
        .replay_session(&store, &task.session_id, None, ReplayMode::Strict)
        .expect("replay");
    assert!(replay.events.len() >= 3);
}

#[test]
fn approval_flow_runs_after_manual_approval() {
    let store = VecStore::new();
    let mut service = RuntimeService::new(PolicyEngine::new());
    let mut req = request("hello approval", TaskTarget::Agent);
    req.requires_approval = true;
    let task = service.submit_task(req, 10).expect("task");
    assert_eq!(task.status, TaskStatus::PendingApproval);
    assert_eq!(nuro::server::http::task_http_status(task.status), 202);
    let action = ActionRequest {
        actor: Some("approver".to_string()),
        comment: Some("approved for execution".to_string()),
    };
    let running = service.approve_task(&task.task_id, action, 11).expect("approve");
    assert_eq!(running.status, TaskStatus::Running);
    let (_, events) = drive_agent(&running.input, &store, &running.session_id, &running.run_id);
    let approved = service
        .finish_task(&running.task_id, Ok(agent_task_output(&events)), 12)
        .expect("finish");
    assert_eq!(approved.status, TaskStatus::Completed);
    assert_eq!(nuro::server::http::task_http_status(approved.status), 200);
    assert!(approved.output.unwrap_or_default().contains("Echo: hello approval"));
    let last = approved.audit_trail.iter().rev().nth(1).expect("approval entry");
    assert_eq!(last.action, "task.approved");
    assert_eq!(last.actor, "approver");
}

#[test]
fn policy_rules_can_reject_requests_and_update_metrics() {
    let engine = PolicyEngine::new()
        .with_rule(PolicyRule::deny_contains("deny-secret".to_string(), "secret".to_string()));
    let mut service = RuntimeService::new(engine);
    let err = match service.submit_task(request("secret draft", TaskTarget::Agent), 10) {
        Err(e) => e,
        Ok(_) => panic!("the request should be denied"),
    };
    assert_eq!(err.status(), 403);
    let metrics = service.metrics_prometheus();
    assert!(metrics.contains("nuro_policy_rejections_total 1"));
}

#[test]
fn mcp_tasks_are_executed_through_the_gateway() {
    let store = VecStore::new();
    let mut service = RuntimeService::new(PolicyEngine::new());
    let args = JsonValue::object1("expression", JsonValue::from_str("6 * 7"));
    let target = TaskTarget::Mcp { tool_name: "calculator".to_string(), arguments: args };
    let task = service.submit_task(request("call calculator through mcp", target), 10).expect("task");
    assert_eq!(task.status, TaskStatus::Running);

    let (tool_name, arguments) = match &task.target {
        TaskTarget::Mcp { tool_name, arguments } => (tool_name.clone(), arguments.duplicate()),
        _ => panic!("mcp target"),
    };
    let start = protocol_event(
        &task.session_id,
        &task.run_id,
        EventKind::ToolCallStart { tool_name: mcp_tool_name(&tool_name), input: arguments.duplicate() },
        11,
        1,
    );
    store.append(&start).expect("append start");

    let calculator = CalculatorTool::new();
    let tools = vec![ToolInfo {
        name: calculator.name().to_string(),
        description: calculator.description().to_string(),
    }];
    let mut session = McpSession::new();
    let rpc = session.request("call_tool", call_params(&tool_name, arguments));
    let expected_id = rpc.id.clone();
    let response = match handle_request(&tools, rpc) {
        McpStep::Invoke { name, args, .. } => {
            let run = match calculator.execute(&args, &ToolContext::new()) {
                Ok(out) => ToolRun::Done { content: out.content },
                Err(error) => ToolRun::Failed { error },
            };
            tool_call_response(expected_id.clone(), &name, run)
        }
        McpStep::Respond { response } => response,
    };
    let result = check_response(&expected_id, response).expect("tool result");
    let end = protocol_event(
        &task.session_id,
        &task.run_id,
        EventKind::ToolCallEnd { tool_name: mcp_tool_name(&tool_name), output: result.duplicate() },
        12,
        2,
    );
    store.append(&end).expect("append end");
    let output = mcp_output_text(&result);
    let task = service.finish_task(&task.task_id, Ok(output), 13).expect("finish");
    assert_eq!(task.status, TaskStatus::Completed);
    assert!(task.output.as_deref().unwrap_or_default().contains("42"));

    let replay = service
        .replay_session(&store, &task.session_id, None, ReplayMode::Strict)
        .expect("replay");
    let names: Vec<String> = replay
        .events
        .iter()
        .filter_map(|e| match &e.kind {
            EventKind::ToolCallStart { tool_name, .. } => Some(tool_name.clone()),
            _ => None,
        })
        .collect();
    assert!(names.iter().any(|n| n.contains("mcp::calculator")));
}

#[test]
fn a2a_tasks_are_recorded_as_runtime_events() {
    let store = VecStore::new();
    let mut service = RuntimeService::new(PolicyEngine::new());
    let url = "http://127.0.0.1:4107";
    let target = TaskTarget::A2a { url: url.to_string() };
    let task = service.submit_task(request("remote hello", target), 10).expect("task");
    let start = protocol_event(
        &task.session_id,
        &task.run_id,
        EventKind::ToolCallStart { tool_name: a2a_tool_name(url), input: a2a_start_input(&task.input) },
        11,
        1,
    );
    store.append(&start).expect("append start");

    // The remote agent: the mock agent behind an A2A task book.
    let remote_store = VecStore::new();
    let (remote_result, _) = drive_agent(&task.input, &remote_store, "remote", "remote-run");
    let mut book = A2aTaskBook::new();
    let created = book.record(nuro::a2a::task_output_text(remote_result));
    let chunks = book.stream_chunks(&created.id);
    let end_output = a2a_end_output(&created.id, &created.output, &chunks, &None);
    let end = protocol_event(
        &task.session_id,
        &task.run_id,
        EventKind::ToolCallEnd { tool_name: a2a_tool_name(url), output: end_output },
        12,
        2,
    );
    store.append(&end).expect("append end");
    let task = service.finish_task(&task.task_id, Ok(created.output.clone()), 13).expect("finish");
    assert_eq!(task.status, TaskStatus::Completed);
    assert!(task.output.as_deref().unwrap_or_default().contains("Echo: remote hello"));

    let replay = service
        .replay_session(&store, &task.session_id, None, ReplayMode::Strict)
        .expect("replay");
    let recorded = replay.events.iter().any(|e| match &e.kind {
        EventKind::ToolCallEnd { tool_name, .. } => tool_name == &format!("a2a::{}", url),
        _ => false,
    });
    assert!(recorded);
}

#[test]
fn replay_by_session_run_filters_events() {
    let store = VecStore::new();
    let e1 = Event::with_identity(EventKind::LlmRequest { messages: vec![] }, 100, 1)
        .with_session(Some("s1".to_string()), Some("r1".to_string()));
    let e2 = Event::with_identity(
        EventKind::ToolCallStart { tool_name: "t".to_string(), input: JsonValue::empty_object() },
        101,
        2,
    )
    .with_session(Some("s1".to_string()), Some("r2".to_string()));
    store.append(&e1).expect("append e1");
    store.append(&e2).expect("append e2");
    let engine = nuro::runtime::replay::ReplayEngine::new(store);
    let result = engine.replay_session_run("s1", "r1", ReplayMode::Strict).expect("replay");
    assert_eq!(result.events.len(), 1);
    assert_eq!(result.events[0].run_id.as_deref(), Some("r1"));
}

#[test]
fn lenient_mode_keeps_events_and_collects_warnings() {
    let store = VecStore::new();
    let mut e1 = Event::with_identity(EventKind::LlmRequest { messages: vec![] }, 1_000, 1)
        .with_session(Some("s2".to_string()), Some("r1".to_string()));
    e1.schema_version = "v0".to_string();
    let mut e2 = Event::with_identity(
        EventKind::ToolCallEnd {
            tool_name: "t".to_string(),
            output: JsonValue::object1("ok", JsonValue::Bool(true)),
        },
        1_000,
        2,
    )
    .with_session(Some("s2".to_string()), Some("r1".to_string()));
    e2.timestamp_ms = e1.timestamp_ms.saturating_sub(10);
    store.append(&e1).expect("append e1");
    store.append(&e2).expect("append e2");
    let engine = nuro::runtime::replay::ReplayEngine::new(store);
    let result = engine.replay_session_run("s2", "r1", ReplayMode::Lenient).expect("replay lenient");
    assert_eq!(result.events.len(), 2);
    assert!(!result.warnings.is_empty());
    assert_eq!(result.warnings[0], "event evt-1000-1 has unsupported schema_version v0");
    assert_eq!(result.warnings[1], "event evt-1000-2 timestamp 990 is earlier than previous 1000");
}

#[test]
fn strict_replay_fails_on_the_first_problem() {
    let store = VecStore::new();
    let mut e1 = Event::with_identity(EventKind::LlmRequest { messages: vec![] }, 5, 1)
        .with_session(Some("s".to_string()), None);
    e1.schema_version = "v9".to_string();
    store.append(&e1).expect("append");
    let service = RuntimeService::new(PolicyEngine::new());
    let err = match service.replay_session(&store, "s", None, ReplayMode::Strict) {
        Err(e) => e,
        Ok(_) => panic!("strict replay should fail"),
    };
    assert_eq!(err.status(), 400);
    assert_eq!(err.message(), "event evt-5-1 has unsupported schema_version v9");
}

#[test]
fn replay_of_unknown_session_is_not_found() {
    let store = VecStore::new();
    let service = RuntimeService::new(PolicyEngine::new());
    let err = match service.replay_session(&store, "ghost", None, ReplayMode::Lenient) {
        Err(e) => e,
        Ok(_) => panic!("unknown session"),
    };
    assert_eq!(err.status(), 404);
    assert_eq!(err.message(), "session 'ghost' was not found");
}
