use nuro::a2a::{discover_url, parse_sse_data, split_into_chunks, stream_url, tasks_url, AgentCard};
use nuro::agent::{AgentInput, AgentOutput};
use nuro::error::NuroError;
use nuro::graph::{InMemoryCheckpointer, StateGraph};
use nuro::json::JsonValue;
use nuro::llm::{
    openai_request_body, stream_event_kinds, LlmProvider, LlmProviderAdapter, LlmRequest,
    MockLlmProvider, OpenAiSettings, ProviderStreamEvent, StreamingMockLlmProvider,
};
use nuro::mcp::{check_response, handle_request, McpStep, RpcRequest, RpcResponse, ToolInfo};
use nuro::memory::{ConversationMemory, InMemoryMemoryStore, MemoryStore};
use nuro::message::{ContentBlock, Message, Role};
use nuro::rag::{chunk_text, index_entries, InMemoryVectorStore, VectorEntry};
use nuro::runtime::agent_loop::{
    build_messages, llm_response_chunks, AgentRun, GuardrailDecision, RunAction, RunEvent,
};
use nuro::server::http::{error_http_status, parse_replay_mode};
use nuro::server::models::{ActionRequest, MetricsSnapshot, RuntimeTaskRequest, TaskStatus, TaskTarget};
use nuro::server::policy::{PolicyDecision, PolicyEngine, PolicyRule};
use nuro::server::service::{estimate_tokens, RuntimeService, ServerError};
use nuro::server::targets::mcp_output_text;
use nuro::tool::{CalculatorTool, ToolContext};
use nuro::runtime::replay::ReplayMode;

fn text_request(input: &str) -> RuntimeTaskRequest {
    RuntimeTaskRequest {
        session_id: None,
        input: input.to_string(),
        target: TaskTarget::Agent,
        requires_approval: false,
        start_paused: false,
        metadata: JsonValue::empty_object(),
    }
}

#[test]
fn streaming_mock_emits_multiple_deltas() {
    let provider = StreamingMockLlmProvider::new(3);
    let req = LlmRequest::new(vec![Message::user("hello streaming")]);
    let events = provider.stream_generate(req).expect("stream ok");
    assert!(events.len() > 2);
    let first = match &events[0] {
        ProviderStreamEvent::TextDelta(t) => t.clone(),
        _ => panic!("text first"),
    };
    assert_eq!(first, "Str");
    assert!(matches!(events.last(), Some(ProviderStreamEvent::Done)));
}

#[test]
fn mock_provider_echoes_and_calls_the_calculator() {
    let llm = MockLlmProvider::new();
    let echo = llm.generate(LlmRequest::new(vec![Message::user("hi there")])).expect("echo");
    assert_eq!(echo.message.text_content().as_deref(), Some("Echo: hi there"));
    let none = llm.generate(LlmRequest::new(vec![Message::system("rules")])).expect("none");
    assert_eq!(none.message.text_content().as_deref(), Some("Echo: (no user input)"));
    let calc = llm.generate(LlmRequest::new(vec![Message::user("calc:  1 + 2 ")])).expect("calc");
    let calls = calc.message.tool_uses();
    assert_eq!(calls.len(), 1);
    assert_eq!(calls[0].id, "tool_call_1");
    assert_eq!(calls[0].name, "calculator");
    assert_eq!(calls[0].input.to_json_string(), "{\"expression\":\"1 + 2\"}");
    let pieces = llm.stream_generate(LlmRequest::new(vec![Message::user("a b")])).expect("pieces");
    let texts: Vec<String> = pieces
        .iter()
        .filter_map(|p| match p {
            ProviderStreamEvent::TextDelta(t) => Some(t.clone()),
            _ => None,
        })
        .collect();
    assert_eq!(texts, vec!["Echo: ", "a ", "b "]);
    assert_eq!(llm.descriptor().name, "mock");
}

#[test]
fn empty_provider_streams_are_refused() {
    let err = match stream_event_kinds(&vec![ProviderStreamEvent::Done]) {
        Err(e) => e,
        Ok(_) => panic!("no events"),
    };
    assert_eq!(err.to_text(), "Invalid input: stream_events_to_runtime_events received empty stream events");
    let kinds = stream_event_kinds(&vec![ProviderStreamEvent::TextDelta("x".to_string()), ProviderStreamEvent::Done])
        .expect("one event");
    assert_eq!(kinds.len(), 1);
}

#[test]
fn calculator_evaluates_and_reports_errors() {
    let calc = CalculatorTool::new();
    let ok = calc
        .execute(&JsonValue::object1("expression", JsonValue::from_str("1+2*3")), &ToolContext::new())
        .expect("evaluated");
    assert_eq!(ok.content.to_json_string(), "7.0");
    let missing = match calc.execute(&JsonValue::empty_object(), &ToolContext::new()) {
        Err(e) => e,
        Ok(_) => panic!("missing expression"),
    };
    assert_eq!(missing.to_text(), "Invalid input: missing 'expression' field");
    let bad = match calc.execute(&JsonValue::object1("expression", JsonValue::from_str("1+")), &ToolContext::new()) {
        Err(e) => e,
        Ok(_) => panic!("bad expression"),
    };
    assert!(matches!(bad, NuroError::Tool(_)));
    assert!(bad.to_text().starts_with("Tool error: failed to evaluate expression: "));
}

#[test]
fn policy_first_matching_rule_decides_ignoring_case() {
    let engine = PolicyEngine::new()
        .with_rule(PolicyRule::require_approval_contains("hold".to_string(), "Deploy".to_string()))
        .with_rule(PolicyRule::deny_contains("deny".to_string(), "deploy".to_string()));
    match engine.evaluate("please DEPLOY now") {
        PolicyDecision::RequireApproval { rule, reason } => {
            assert_eq!(rule, "hold");
            assert_eq!(reason, "rule 'hold' matched 'Deploy'");
        }
        _ => panic!("first rule decides"),
    }
    assert!(matches!(engine.evaluate("hello"), PolicyDecision::Allow));
}

#[test]
fn policy_approval_holds_a_task() {
    let engine = PolicyEngine::new()
        .with_rule(PolicyRule::require_approval_contains("hold".to_string(), "deploy".to_string()));
    let mut service = RuntimeService::new(engine);
    let task = service.submit_task(text_request("deploy it"), 5).expect("held");
    assert_eq!(task.status, TaskStatus::PendingApproval);
    assert!(task.requires_approval);
    assert_eq!(task.approval_reason.as_deref(), Some("rule 'hold' matched 'deploy'"));
    assert_eq!(task.audit_trail.len(), 2);
    assert_eq!(task.audit_trail[0].detail, "protocol=agent");
    assert_eq!(task.audit_trail[1].actor, "policy");
}

#[test]
fn blank_requests_are_bad_requests() {
    let mut service = RuntimeService::new(PolicyEngine::new());
    let err = match service.submit_task(text_request("   "), 1) {
        Err(e) => e,
        Ok(_) => panic!("blank"),
    };
    assert_eq!(err.status(), 400);
    assert_eq!(err.message(), "input must not be empty");
    let mut req = text_request("x");
    req.target = TaskTarget::A2a { url: " ".to_string() };
    let err = match service.submit_task(req, 1) {
        Err(e) => e,
        Ok(_) => panic!("blank url"),
    };
    assert_eq!(err.message(), "a2a url must not be empty");
    let mut req = text_request("");
    req.target = TaskTarget::Mcp { tool_name: "".to_string(), arguments: JsonValue::Null };
    let err = match service.submit_task(req, 1) {
        Err(e) => e,
        Ok(_) => panic!("blank tool"),
    };
    assert_eq!(err.message(), "mcp tool name must not be empty");
    assert_eq!(service.metrics_snapshot().tasks_total, 0);
}

#[test]
fn task_lifecycle_refuses_wrong_transitions() {
    let mut service = RuntimeService::new(PolicyEngine::new());
    let mut req = text_request("later");
    req.start_paused = true;
    let paused = service.submit_task(req, 1).expect("paused");
    assert_eq!(paused.status, TaskStatus::Interrupted);
    let none = ActionRequest { actor: None, comment: None };
    let err = match service.approve_task(&paused.task_id, ActionRequest { actor: None, comment: None }, 2) {
        Err(e) => e,
        Ok(_) => panic!("not pending"),
    };
    assert_eq!(err.status(), 409);
    assert_eq!(err.message(), "task is not awaiting approval");
    let resumed = service.resume_task(&paused.task_id, none, 3).expect("resume");
    assert_eq!(resumed.status, TaskStatus::Running);
    let audit = resumed.audit_trail.last().expect("entry");
    assert_eq!(audit.action, "task.resumed");
    assert_eq!(audit.actor, "system");
    assert_eq!(audit.detail, "task execution started");
    let err = match service.interrupt_task(&paused.task_id, ActionRequest { actor: None, comment: None }, 4) {
        Err(e) => e,
        Ok(_) => panic!("running"),
    };
    assert_eq!(
        err.message(),
        "running tasks are synchronous; create them paused or approval-gated to resume later"
    );
    let failed = service.finish_task(&paused.task_id, Err("boom".to_string()), 5).expect("fail");
    assert_eq!(failed.status, TaskStatus::Failed);
    assert_eq!(failed.error.as_deref(), Some("boom"));
    let err = match service.interrupt_task(&paused.task_id, ActionRequest { actor: None, comment: None }, 6) {
        Err(e) => e,
        Ok(_) => panic!("finished"),
    };
    assert_eq!(err.message(), "cannot interrupt a completed task");
    let err = match service.get_task("task-99") {
        None => service.finish_task("task-99", Ok(String::new()), 7),
        Some(_) => panic!("unknown"),
    };
    match err {
        Err(e) => {
            assert_eq!(e.status(), 404);
            assert_eq!(e.message(), "task 'task-99' was not found");
        }
        Ok(_) => panic!("unknown task"),
    }
}

#[test]
fn sessions_are_numbered_and_touched() {
    let mut service = RuntimeService::new(PolicyEngine::new());
    let a = service.create_session(None, JsonValue::empty_object(), 10).expect("a");
    assert_eq!(a.session_id, "session-1");
    let b = service.create_session(Some("mine".to_string()), JsonValue::Null, 11).expect("b");
    assert_eq!(b.session_id, "mine");
    let meta = JsonValue::object1("k", JsonValue::from_str("v"));
    let b2 = service.create_session(Some("mine".to_string()), meta, 12).expect("b2");
    assert_eq!(b2.created_at_ms, 11);
    assert_eq!(b2.updated_at_ms, 12);
    assert_eq!(b2.metadata.to_json_string(), "{\"k\":\"v\"}");
    let b3 = service.create_session(Some("mine".to_string()), JsonValue::empty_object(), 13).expect("b3");
    assert_eq!(b3.metadata.to_json_string(), "{\"k\":\"v\"}");
    let c = service.create_session(None, JsonValue::Null, 14).expect("c");
    assert_eq!(c.session_id, "session-2");
    assert_eq!(service.metrics_snapshot().sessions_total, 3);
    assert!(service.get_session("nope").is_none());
}

#[test]
fn metrics_count_tasks_by_status_and_tokens() {
    let mut service = RuntimeService::new(PolicyEngine::new());
    let t = service.submit_task(text_request("one two three four five"), 1).expect("t");
    assert_eq!(t.token_usage.input_tokens, 6);
    service.finish_task(&t.task_id, Ok("done".to_string()), 2).expect("finish");
    let mut req = text_request("wait");
    req.requires_approval = true;
    service.submit_task(req, 3).expect("pending");
    let m: MetricsSnapshot = service.metrics_snapshot();
    assert_eq!(m.sessions_total, 2);
    assert_eq!(m.tasks_total, 2);
    assert_eq!(m.tasks_completed_total, 1);
    assert_eq!(m.tasks_pending_approval_current, 1);
    assert_eq!(m.input_tokens_total, 7);
    assert_eq!(m.output_tokens_total, 1);
    let text = service.metrics_prometheus();
    assert!(text.starts_with("# TYPE nuro_sessions_total gauge\nnuro_sessions_total 2\n"));
    assert!(text.contains("nuro_tasks_completed_total 1\n"));
    assert!(text.ends_with("# TYPE nuro_output_tokens_total counter\nnuro_output_tokens_total 1\n"));
}

#[test]
fn token_estimates_use_words_or_quarters() {
    assert_eq!(estimate_tokens(""), 0);
    assert_eq!(estimate_tokens("abcdefghi"), 3);
    assert_eq!(estimate_tokens("a b c d e"), 5);
}

#[test]
fn server_errors_map_library_errors() {
    let e = ServerError::from_error(NuroError::InvalidInput("bad".to_string()));
    assert_eq!((e.status(), e.message()), (400, "bad"));
    let e = ServerError::from_error(NuroError::Storage("disk".to_string()));
    assert_eq!(e.status(), 500);
    let e = ServerError::from_error(NuroError::ToolNotFound("x".to_string()));
    assert_eq!(e.status(), 500);
    assert_eq!(ServerError::forbidden("no").status(), 403);
    assert_eq!(ServerError::conflict("c").status(), 409);
    assert_eq!(error_http_status(&ServerError::new(42, "odd")), 500);
    assert_eq!(parse_replay_mode(Some("LeNiEnT")), ReplayMode::Lenient);
    assert_eq!(parse_replay_mode(None), ReplayMode::Strict);
}

#[test]
fn conversation_memory_keeps_the_latest_messages() {
    let mut memory = ConversationMemory::new(2);
    memory.push(Message::user("1"));
    memory.push(Message::user("2"));
    memory.push(Message::user("3"));
    assert_eq!(memory.max_messages(), 2);
    let texts: Vec<String> = memory.messages().iter().filter_map(|m| m.text_content()).collect();
    assert_eq!(texts, vec!["2", "3"]);
}

#[test]
fn memory_store_reads_back_what_was_written() {
    let mut store = InMemoryMemoryStore::new();
    store.add("c1", Message::user("Hello World")).expect("add");
    store.add("c1", Message::assistant("bye")).expect("add");
    store.add("c2", Message::user("other")).expect("add");
    assert_eq!(store.get_conversation("c1").expect("get").len(), 2);
    let found = store.query("c1", "WORLD").expect("query");
    assert_eq!(found.len(), 1);
    assert_eq!(store.query("c1", "  ").expect("all").len(), 2);
    store.save_conversation("c1", &vec![Message::user("fresh")]).expect("save");
    let c1 = store.get_conversation("c1").expect("get");
    assert_eq!(c1.len(), 1);
    assert_eq!(store.get_conversation("c2").expect("get").len(), 1);
    assert_eq!(store.get_conversation("none").expect("get").len(), 0);
}

#[test]
fn graph_compile_reports_unknown_nodes() {
    let g: StateGraph<u32, u32> = StateGraph::new()
        .add_node("a".to_string(), 1)
        .add_edge("a".to_string(), "b".to_string())
        .set_entry_point("a".to_string());
    let err = match g.compile::<u8>() {
        Err(e) => e,
        Ok(_) => panic!("unknown target"),
    };
    assert_eq!(err.to_text(), "Invalid input: edge from 'a' references unknown target node 'b'");
    let g: StateGraph<u32, u32> = StateGraph::new()
        .add_node("a".to_string(), 1)
        .add_node("b".to_string(), 2)
        .add_edge("a".to_string(), "b".to_string())
        .set_entry_point("a".to_string())
        .set_finish_point("b".to_string());
    let compiled = match g.compile::<u8>() {
        Ok(c) => c,
        Err(_) => panic!("valid graph"),
    };
    assert_eq!(compiled.next_node("a", None).as_deref(), Some("b"));
    assert_eq!(compiled.next_node("b", None), None);
    let missing: StateGraph<u32, u32> = StateGraph::new();
    match missing.compile::<u8>() {
        Err(e) => assert_eq!(e.to_text(), "Invalid input: entry point is not set"),
        Ok(_) => panic!("no entry"),
    }
}

#[test]
fn checkpointer_reads_back_saved_state() {
    let mut c: InMemoryCheckpointer<u32> = InMemoryCheckpointer::new();
    c.save_state("n1", 5).expect("save");
    c.save_state("n1", 6).expect("save");
    assert_eq!(c.get("n1"), Some(&6));
    assert_eq!(c.get("n2"), None);
}

fn run_with(events: Vec<RunEvent>, guards: usize, hooks: usize) -> Vec<RunAction> {
    let (mut run, first) = AgentRun::start(&None, AgentInput::text("hi".to_string()), hooks, guards, false);
    let mut actions = vec![first];
    for e in events {
        actions.push(run.step(e));
    }
    actions
}

#[test]
fn input_guardrail_blocks_before_the_model() {
    let actions = run_with(vec![GuardrailDecision::Block { reason: "nope".to_string() }.into_event()], 1, 0);
    assert!(matches!(actions[0], RunAction::CheckInput { guardrail: 0 }));
    match &actions[1] {
        RunAction::Finish { result: Err(e) } => assert_eq!(e.to_text(), "Invalid input: input blocked by guardrail: nope"),
        _ => panic!("blocked"),
    }
}

#[test]
fn output_guardrail_blocks_the_answer() {
    let answer = Message::assistant("ok");
    let actions = run_with(
        vec![
            RunEvent::Proceed,
            RunEvent::Replied { message: answer },
            RunEvent::Blocked { reason: "leak".to_string() },
        ],
        1,
        0,
    );
    assert!(matches!(actions[1], RunAction::CallLlm { .. }));
    assert!(matches!(actions[2], RunAction::CheckOutput { guardrail: 0 }));
    match &actions[3] {
        RunAction::Finish { result: Err(e) } => assert_eq!(e.to_text(), "LLM error: output blocked by guardrail: leak"),
        _ => panic!("blocked"),
    }
}

#[test]
fn missing_tools_get_an_error_result() {
    let call = Message::new(
        Role::Assistant,
        vec![ContentBlock::ToolUse { id: "c1".to_string(), name: "nope".to_string(), input: JsonValue::Null }],
    );
    let actions = run_with(vec![RunEvent::Replied { message: call }, RunEvent::Found { found: false }], 0, 0);
    assert!(matches!(&actions[1], RunAction::LookupTool { name } if name == "nope"));
    let output: AgentOutput = match &actions[2] {
        RunAction::Finish { result: Ok(o) } => o.duplicate(),
        _ => panic!("finished"),
    };
    assert_eq!(output.messages.len(), 3);
    match &output.messages[2].content[0] {
        ContentBlock::ToolResult { tool_use_id, content, is_error } => {
            assert_eq!(tool_use_id, "c1");
            assert!(*is_error);
            assert_eq!(content.to_json_string(), "{\"error\":\"tool 'nope' not found\"}");
        }
        _ => panic!("tool result"),
    }
}

#[test]
fn answers_are_streamed_in_three_pieces() {
    let chunks = llm_response_chunks(&Message::assistant("abcdefg"));
    let texts: Vec<String> = chunks.iter().filter_map(|m| m.text_content()).collect();
    assert_eq!(texts, vec!["abc", "def", "g"]);
    let messages = build_messages(&Some("sys".to_string()), AgentInput::text("u".to_string()));
    assert_eq!(messages.len(), 2);
    assert_eq!(messages[0].role, Role::System);
}

#[test]
fn mcp_server_dispatches_requests() {
    let tools = vec![ToolInfo { name: "calculator".to_string(), description: "calc".to_string() }];
    let list = RpcRequest { id: "1".to_string(), method: "list_tools".to_string(), params: JsonValue::empty_object() };
    match handle_request(&tools, list) {
        McpStep::Respond { response } => assert_eq!(
            response.to_json().to_json_string(),
            "{\"id\":\"1\",\"result\":{\"tools\":[{\"description\":\"calc\",\"name\":\"calculator\"}]}}"
        ),
        _ => panic!("listing"),
    }
    let unknown = RpcRequest { id: "2".to_string(), method: "ping".to_string(), params: JsonValue::Null };
    match handle_request(&tools, unknown) {
        McpStep::Respond { response } => assert_eq!(
            response.to_json().to_json_string(),
            "{\"id\":\"2\",\"error\":{\"message\":\"unknown method 'ping'\"}}"
        ),
        _ => panic!("unknown"),
    }
    let missing = RpcRequest {
        id: "3".to_string(),
        method: "call_tool".to_string(),
        params: JsonValue::object1("name", JsonValue::from_str("nope")),
    };
    match handle_request(&tools, missing) {
        McpStep::Respond { response } => {
            assert_eq!(response.error.map(|e| e.message).as_deref(), Some("tool 'nope' not found"))
        }
        _ => panic!("not found"),
    }
    let mismatched = RpcResponse::success("9".to_string(), JsonValue::Null);
    assert_eq!(
        check_response("1", mismatched).err().as_deref(),
        Some("mismatched response id: expected 1, got 9")
    );
    let content = JsonValue::object1("content", JsonValue::Number("42.0".to_string()));
    assert_eq!(mcp_output_text(&content), "42.0");
}

#[test]
fn a2a_addresses_and_streams() {
    assert_eq!(discover_url("http://h:1//"), "http://h:1/.well-known/agent.json");
    assert_eq!(tasks_url("http://h:1/"), "http://h:1/tasks");
    assert_eq!(stream_url("http://h:1", "task-1"), "http://h:1/tasks/task-1/stream");
    let body = "data: one\r\n\ndata:two\nevent: x\ndata:  three  ";
    assert_eq!(parse_sse_data(body), vec!["one", "two", "three"]);
    assert_eq!(split_into_chunks("abcdefg", 3), vec!["abc", "def", "g"]);
    assert_eq!(split_into_chunks("ab", 3), vec!["a", "b"]);
    assert!(split_into_chunks("", 3).is_empty());
    let card = AgentCard {
        name: "n".to_string(),
        description: "d".to_string(),
        url: "u".to_string(),
        version: "v".to_string(),
    };
    assert_eq!(card.to_json().to_json_string(), "{\"description\":\"d\",\"name\":\"n\",\"url\":\"u\",\"version\":\"v\"}");
}

#[test]
fn vector_search_ranks_by_overlap() {
    let mut store = InMemoryVectorStore::new();
    let entry = |id: &str, text: &str| VectorEntry {
        id: id.to_string(),
        metadata: JsonValue::object1("text", JsonValue::from_str(text)),
    };
    store.upsert(vec![entry("a", "rust is fast"), entry("b", "Rust Rust verus"), entry("c", "nothing here")]);
    let filter = JsonValue::object1("query", JsonValue::from_str("  Rust verus "));
    let hits = store.search(5, Some(&filter));
    let ids: Vec<&str> = hits.iter().map(|h| h.id.as_str()).collect();
    assert_eq!(ids, vec!["b", "a"]);
    assert_eq!((hits[0].matched, hits[0].union), (2, 2));
    assert_eq!((hits[1].matched, hits[1].union), (1, 4));
    let top = store.search(1, Some(&filter));
    assert_eq!(top.len(), 1);
    let all = store.search(2, None);
    assert_eq!(all.len(), 2);
    assert_eq!(all[0].matched, 0);
    store.delete(&vec!["b".to_string()]);
    assert_eq!(store.search(5, Some(&filter)).len(), 1);
}

#[test]
fn documents_are_chunked_for_indexing() {
    assert_eq!(chunk_text("abcde", 2), vec!["ab", "cd", "e"]);
    assert!(chunk_text("abc", 0).is_empty());
    let entries = index_entries("doc.txt", "abcde", 4);
    assert_eq!(entries.len(), 2);
    assert_eq!(entries[1].id, "doc.txt#1");
    assert_eq!(entries[1].metadata.to_json_string(), "{\"chunk_index\":1,\"source\":\"doc.txt\",\"text\":\"e\"}");
}

#[test]
fn openai_bodies_and_settings() {
    let body = openai_request_body("m", &vec![Message::system("s"), Message::user("u")]).expect("body");
    assert_eq!(
        body.to_json_string(),
        "{\"model\":\"m\",\"messages\":[{\"role\":\"system\",\"content\":\"s\"},{\"role\":\"user\",\"content\":\"u\"}]}"
    );
    assert!(openai_request_body("m", &vec![]).is_err());
    let settings = OpenAiSettings::from_env_values(Some("k".to_string()), None, "m".to_string()).expect("settings");
    assert_eq!(settings.chat_url(), "https://api.openai.com/v1/chat/completions");
    match OpenAiSettings::from_env_values(None, None, "m".to_string()) {
        Err(e) => assert_eq!(e.to_text(), "LLM error: OPENAI_API_KEY is not set"),
        Ok(_) => panic!("no key"),
    }
}

#[test]
fn blank_calculator_expressions_are_tool_errors() {
    let calc = CalculatorTool::new();
    for blank in [" ", "\t", " \r\n ", "\n"] {
        let err = match calc.execute(&JsonValue::object1("expression", JsonValue::from_str(blank)), &ToolContext::new()) {
            Err(e) => e,
            Ok(_) => panic!("blank expression"),
        };
        assert_eq!(err.to_text(), "Tool error: failed to evaluate expression: the expression is blank");
    }
    let ok = calc
        .execute(&JsonValue::object1("expression", JsonValue::from_str(" 6 * 7 ")), &ToolContext::new())
        .expect("evaluated");
    assert_eq!(ok.content.to_json_string(), "42.0");
}

#[test]
fn stream_events_become_tagged_runtime_events() {
    let llm = MockLlmProvider::new();
    let stream = vec![
        ProviderStreamEvent::TextDelta("hi ".to_string()),
        ProviderStreamEvent::ToolCallStart { name: "calculator".to_string(), input: JsonValue::empty_object() },
        ProviderStreamEvent::Done,
    ];
    let events = llm
        .stream_events_to_runtime_events(Some("s1".to_string()), Some("r1".to_string()), &stream, 1000, 7)
        .expect("events");
    assert_eq!(events.len(), 2);
    assert_eq!(events[0].event_id, "evt-1000-7");
    assert_eq!(events[1].event_id, "evt-1000-8");
    for e in &events {
        assert_eq!(e.schema_version, "v1");
        assert_eq!(e.session_id.as_deref(), Some("s1"));
        assert_eq!(e.run_id.as_deref(), Some("r1"));
    }
    match &events[0].kind {
        nuro::event::EventKind::LlmResponse { message } => {
            assert_eq!(message.role, Role::Assistant);
            assert_eq!(message.text_content().as_deref(), Some("hi "));
        }
        other => panic!("unexpected {:?}", other),
    }
    match &events[1].kind {
        nuro::event::EventKind::ToolCallStart { tool_name, .. } => assert_eq!(tool_name, "calculator"),
        other => panic!("unexpected {:?}", other),
    }
    let err = match llm.stream_events_to_runtime_events(None, None, &vec![ProviderStreamEvent::Done], 0, 0) {
        Err(e) => e,
        Ok(_) => panic!("no events"),
    };
    assert_eq!(err.to_text(), "Invalid input: stream_events_to_runtime_events received empty stream events");
}

#[test]
fn memory_keeps_the_latest_of_many_pushes() {
    let mut memory = ConversationMemory::new(3);
    for i in 1..=7 {
        memory.push(Message::user(&i.to_string()));
        assert!(memory.messages().len() <= 3);
    }
    let texts: Vec<String> = memory.messages().iter().filter_map(|m| m.text_content()).collect();
    assert_eq!(texts, vec!["5", "6", "7"]);
    let mut none = ConversationMemory::new(0);
    none.push(Message::user("x"));
    assert_eq!(none.messages().len(), 0);
    assert_eq!(none.max_messages(), 0);
}

#[test]
fn checkpointer_does_not_change_the_route() {
    let build = || -> StateGraph<u32, u32> {
        StateGraph::new()
            .add_node("a".to_string(), 1)
            .add_node("b".to_string(), 2)
            .add_node("c".to_string(), 3)
            .add_edge("a".to_string(), "b".to_string())
            .add_edge("b".to_string(), "c".to_string())
            .set_entry_point("a".to_string())
            .set_finish_point("c".to_string())
    };
    let plain = build().compile::<InMemoryCheckpointer<u32>>().ok().expect("valid graph");
    let saved = build()
        .compile::<InMemoryCheckpointer<u32>>()
        .ok()
        .expect("valid graph")
        .with_checkpointer(InMemoryCheckpointer::new());
    assert!(plain.checkpoint_store().is_none());
    assert!(saved.checkpoint_store().is_some());
    for node in ["a", "b", "c"] {
        assert_eq!(plain.next_node(node, None), saved.next_node(node, None));
    }
    assert_eq!(saved.entry(), plain.entry());
}
