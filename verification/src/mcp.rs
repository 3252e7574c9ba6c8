//! A minimal MCP tool protocol: JSON-RPC messages, one per line, with the methods
//! `list_tools` and `call_tool`.
//!
//! The server's decisions and the client's checks are here; reading and writing lines
//! and running tools (with their time limit) is left to the caller.
use vstd::prelude::*;

use crate::error::{failure_text, opt_view, Failure, NuroError};
use crate::json::{as_str_spec, get_spec, lemma_items_view, json_text, Json, JsonValue};
use crate::text::{concat3, concat_str, dec, str_eq, u64_to_dec};

verus! {

/// A request: its id, method and parameters.
#[derive(Debug)]
pub struct RpcRequest {
    pub id: String,
    pub method: String,
    pub params: JsonValue,
}

/// An error answer.
#[derive(Debug)]
pub struct RpcError {
    pub message: String,
}

/// An answer: a result or an error, for the request `id`.
#[derive(Debug)]
pub struct RpcResponse {
    pub id: String,
    pub result: Option<JsonValue>,
    pub error: Option<RpcError>,
}

/// The model of an answer.
pub ghost struct ResponseModel {
    pub id: Seq<char>,
    pub result: Option<Json>,
    pub error: Option<Seq<char>>,
}

impl View for RpcResponse {
    type V = ResponseModel;

    open spec fn view(&self) -> ResponseModel {
        ResponseModel {
            id: self.id@,
            result: match self.result {
                Some(v) => Some(v@),
                None => None,
            },
            error: match self.error {
                Some(e) => Some(e.message@),
                None => None,
            },
        }
    }
}

/// The JSON form of an answer: `id`, then `result` or `error` (`{"message": ...}`) when
/// present.
pub open spec fn response_json(r: ResponseModel) -> Json {
    Json::Object(
        seq![("id"@, Json::String(r.id))] + match r.result {
            Some(v) => seq![("result"@, v)],
            None => seq![],
        } + match r.error {
            Some(m) => seq![("error"@, Json::Object(seq![("message"@, Json::String(m))]))],
            None => seq![],
        },
    )
}

/// The JSON form of a request: `id`, `method`, `params`.
pub open spec fn request_json(id: Seq<char>, method: Seq<char>, params: Json) -> Json {
    Json::Object(
        seq![("id"@, Json::String(id)), ("method"@, Json::String(method)), ("params"@, params)],
    )
}

impl RpcResponse {
    /// A result answer.
    pub fn success(id: String, result: JsonValue) -> (r: RpcResponse)
        ensures
            r@ == (ResponseModel { id: id@, result: Some(result@), error: None }),
    {
        RpcResponse { id, result: Some(result), error: None }
    }

    /// An error answer.
    pub fn failure(id: String, message: String) -> (r: RpcResponse)
        ensures
            r@ == (ResponseModel { id: id@, result: None, error: Some(message@) }),
    {
        RpcResponse { id, result: None, error: Some(RpcError { message }) }
    }

    /// The answer as JSON; see [`response_json`].
    pub fn to_json(&self) -> (j: JsonValue)
        ensures
            j@ == response_json(self@),
    {
        let mut members: Vec<(String, JsonValue)> = Vec::new();
        members.push((String::from_str("id"), JsonValue::String(self.id.clone())));
        if let Some(v) = &self.result {
            members.push((String::from_str("result"), v.duplicate()));
        }
        if let Some(e) = &self.error {
            let msg = JsonValue::object1("message", JsonValue::String(e.message.clone()));
            members.push((String::from_str("error"), msg));
        }
        let j = JsonValue::Object(members);
        proof {
            crate::json::lemma_members_view(members@, members@.len() as int);
            let m = crate::json::members_view(members@, members@.len() as int);
            match response_json(self@) {
                Json::Object(expected) => {
                    assert(m =~= expected);
                },
                _ => {},
            }
        }
        j
    }
}

/// A registered tool, as the server lists it.
#[derive(Debug)]
pub struct ToolInfo {
    pub name: String,
    pub description: String,
}

/// The listing of tools: `{"tools": [{"description": ..., "name": ...}, ...]}`.
pub open spec fn tools_listing(tools: Seq<ToolInfo>) -> Json {
    Json::Object(
        seq![
            (
                "tools"@,
                Json::Array(
                    tools.map_values(
                        |t: ToolInfo|
                            Json::Object(
                                seq![
                                    ("description"@, Json::String(t.description@)),
                                    ("name"@, Json::String(t.name@)),
                                ],
                            ),
                    ),
                ),
            ),
        ],
    )
}

/// Position of the first tool named `name`, or -1.
pub open spec fn tool_index(tools: Seq<ToolInfo>, name: Seq<char>) -> int
    decreases tools.len(),
{
    if tools.len() == 0 {
        -1
    } else if tools[0].name@ == name {
        0
    } else {
        let rest = tool_index(tools.drop_first(), name);
        if rest < 0 {
            -1
        } else {
            rest + 1
        }
    }
}

/// What the server does with a request.
#[derive(Debug)]
pub enum McpStep {
    /// Answer at once.
    Respond { response: RpcResponse },
    /// Run tool `tool` (a position in the tool list) on `args`, then answer with
    /// [`tool_call_response`].
    Invoke { tool: usize, name: String, args: JsonValue },
}

/// The model of a server step.
pub ghost enum StepModel {
    Respond { response: ResponseModel },
    Invoke { tool: int, name: Seq<char>, args: Json },
}

impl View for McpStep {
    type V = StepModel;

    open spec fn view(&self) -> StepModel {
        match self {
            McpStep::Respond { response } => StepModel::Respond { response: response@ },
            McpStep::Invoke { tool, name, args } => StepModel::Invoke {
                tool: *tool as int,
                name: name@,
                args: args@,
            },
        }
    }
}

/// The tool name of a `call_tool` request: its `name` parameter when it is a string,
/// else the empty name.
pub open spec fn call_name(params: Json) -> Seq<char> {
    match as_str_spec(get_spec(params, "name"@)) {
        Some(n) => n,
        None => seq![],
    }
}

/// The arguments of a `call_tool` request: its `args` parameter, else `{}`.
pub open spec fn call_args(params: Json) -> Json {
    match get_spec(params, "args"@) {
        Some(a) => a,
        None => Json::Object(seq![]),
    }
}

/// The server's decision: `list_tools` answers with the listing; `call_tool` runs the
/// first tool with the requested name, or answers `tool '<name>' not found`; any other
/// method is answered `unknown method '<method>'`.
pub open spec fn dispatch_spec(id: Seq<char>, method: Seq<char>, params: Json, tools: Seq<ToolInfo>) -> StepModel {
    if method == "list_tools"@ {
        StepModel::Respond {
            response: ResponseModel { id, result: Some(tools_listing(tools)), error: None },
        }
    } else if method == "call_tool"@ {
        let name = call_name(params);
        let k = tool_index(tools, name);
        if k < 0 {
            StepModel::Respond {
                response: ResponseModel {
                    id,
                    result: None,
                    error: Some("tool '"@ + name + "' not found"@),
                },
            }
        } else {
            StepModel::Invoke { tool: k, name, args: call_args(params) }
        }
    } else {
        StepModel::Respond {
            response: ResponseModel {
                id,
                result: None,
                error: Some("unknown method '"@ + method + "'"@),
            },
        }
    }
}

fn find_tool(tools: &Vec<ToolInfo>, name: &str) -> (r: Option<usize>)
    ensures
        match r {
            Some(k) => k as int == tool_index(tools@, name@) && k < tools@.len(),
            None => tool_index(tools@, name@) == -1,
        },
{
    let mut i: usize = 0;
    assert(tools@.skip(0) =~= tools@);
    while i < tools.len()
        invariant
            i <= tools@.len(),
            tool_index(tools@, name@) == if tool_index(tools@.skip(i as int), name@) < 0 {
                -1
            } else {
                tool_index(tools@.skip(i as int), name@) + i
            },
        decreases tools@.len() - i,
    {
        let ghost rest = tools@.skip(i as int);
        assert(rest[0] == tools@[i as int]);
        if str_eq(tools[i].name.as_str(), name) {
            return Some(i);
        }
        assert(rest.drop_first() =~= tools@.skip(i + 1));
        i = i + 1;
    }
    assert(tools@.skip(i as int) =~= Seq::<ToolInfo>::empty());
    None
}

/// The server's decision for a request; see [`dispatch_spec`].
pub fn handle_request(tools: &Vec<ToolInfo>, request: RpcRequest) -> (s: McpStep)
    ensures
        s@ == dispatch_spec(request.id@, request.method@, request.params@, tools@),
{
    let RpcRequest { id, method, params } = request;
    if str_eq(method.as_str(), "list_tools") {
        let mut items: Vec<JsonValue> = Vec::new();
        let mut i: usize = 0;
        let ghost target = tools@.map_values(
            |t: ToolInfo|
                Json::Object(
                    seq![
                        ("description"@, Json::String(t.description@)),
                        ("name"@, Json::String(t.name@)),
                    ],
                ),
        );
        while i < tools.len()
            invariant
                i <= tools@.len(),
                items@.len() == i,
                target == tools@.map_values(
                    |t: ToolInfo|
                        Json::Object(
                            seq![
                                ("description"@, Json::String(t.description@)),
                                ("name"@, Json::String(t.name@)),
                            ],
                        ),
                ),
                forall|k: int| 0 <= k < i ==> #[trigger] items@[k]@ == target[k],
            decreases tools@.len() - i,
        {
            let t = &tools[i];
            let mut members: Vec<(String, JsonValue)> = Vec::new();
            members.push((String::from_str("description"), JsonValue::String(t.description.clone())));
            members.push((String::from_str("name"), JsonValue::String(t.name.clone())));
            let item = JsonValue::Object(members);
            proof {
                crate::json::lemma_members_view(members@, 2);
                assert(crate::json::members_view(members@, 2) =~= seq![
                    ("description"@, Json::String(t.description@)),
                    ("name"@, Json::String(t.name@)),
                ]);
            }
            items.push(item);
            i = i + 1;
        }
        let listing = JsonValue::Array(items);
        proof {
            lemma_items_view(items@, items@.len() as int);
            assert(crate::json::items_view(items@, items@.len() as int) =~= target);
        }
        let result = JsonValue::object1("tools", listing);
        return McpStep::Respond { response: RpcResponse::success(id, result) };
    }
    if str_eq(method.as_str(), "call_tool") {
        let name = match params.get("name") {
            Some(v) => match v.as_str() {
                Some(n) => String::from_str(n),
                None => String::new(),
            },
            None => String::new(),
        };
        let args = match params.get("args") {
            Some(a) => a.duplicate(),
            None => JsonValue::empty_object(),
        };
        return match find_tool(tools, name.as_str()) {
            Some(k) => McpStep::Invoke { tool: k, name, args },
            None => {
                let m = concat3("tool '", name.as_str(), "' not found");
                McpStep::Respond { response: RpcResponse::failure(id, m) }
            },
        };
    }
    let m = concat3("unknown method '", method.as_str(), "'");
    McpStep::Respond { response: RpcResponse::failure(id, m) }
}

/// How running a tool ended.
#[derive(Debug)]
pub enum ToolRun {
    /// It did not finish within the time limit.
    TimedOut,
    /// It failed.
    Failed { error: NuroError },
    /// It returned this content.
    Done { content: JsonValue },
}

/// The model of a tool run.
pub ghost enum ToolRunModel {
    TimedOut,
    Failed { error: Failure },
    Done { content: Json },
}

impl View for ToolRun {
    type V = ToolRunModel;

    open spec fn view(&self) -> ToolRunModel {
        match self {
            ToolRun::TimedOut => ToolRunModel::TimedOut,
            ToolRun::Failed { error } => ToolRunModel::Failed { error: error@ },
            ToolRun::Done { content } => ToolRunModel::Done { content: content@ },
        }
    }
}

/// The answer to a tool call: a time-out or failure is an error (`tool '<name>'
/// execution timed out`, or the error's text); else `{"content": ...}`.
pub open spec fn tool_call_response_spec(id: Seq<char>, name: Seq<char>, run: ToolRunModel) -> ResponseModel {
    match run {
        ToolRunModel::TimedOut => ResponseModel {
            id,
            result: None,
            error: Some("tool '"@ + name + "' execution timed out"@),
        },
        ToolRunModel::Failed { error } => ResponseModel { id, result: None, error: Some(failure_text(error)) },
        ToolRunModel::Done { content } => ResponseModel {
            id,
            result: Some(Json::Object(seq![("content"@, content)])),
            error: None,
        },
    }
}

/// The answer to a tool call; see [`tool_call_response_spec`].
pub fn tool_call_response(id: String, name: &str, run: ToolRun) -> (r: RpcResponse)
    ensures
        r@ == tool_call_response_spec(id@, name@, run@),
{
    match run {
        ToolRun::TimedOut => RpcResponse::failure(id, concat3("tool '", name, "' execution timed out")),
        ToolRun::Failed { error } => RpcResponse::failure(id, error.to_text()),
        ToolRun::Done { content } => RpcResponse::success(id, JsonValue::object1("content", content)),
    }
}

/// The answer to a line that is not a request: an error with an empty id.
pub fn parse_failure_response(detail: &str) -> (r: RpcResponse)
    ensures
        r@ == (ResponseModel {
            id: seq![],
            result: None,
            error: Some("failed to parse request: "@ + detail@),
        }),
{
    let r = RpcResponse::failure(String::new(), concat_str("failed to parse request: ", detail));
    assert(r@.id =~= seq![]);
    r
}

/// A client's side of a connection: it numbers its requests `1`, `2`, ...
#[derive(Debug)]
pub struct McpSession {
    next_id: u64,
}

impl McpSession {
    /// A session whose first request is numbered 1.
    pub fn new() -> (s: McpSession)
        ensures
            s.next_id() == 1,
    {
        McpSession { next_id: 1 }
    }

    /// The number of the next request.
    pub closed spec fn next_id(&self) -> u64 {
        self.next_id
    }

    /// The number the next request will carry.
    pub fn next_number(&self) -> (n: u64)
        ensures
            n == self.next_id(),
    {
        self.next_id
    }

    /// The next request: numbered with the decimal text of the counter, which moves on.
    pub fn request(&mut self, method: &str, params: JsonValue) -> (r: RpcRequest)
        requires
            old(self).next_id() < u64::MAX,
        ensures
            r.id@ == dec(old(self).next_id() as nat),
            r.method@ == method@,
            r.params@ == params@,
            final(self).next_id() == old(self).next_id() + 1,
    {
        let id = u64_to_dec(self.next_id);
        self.next_id = self.next_id + 1;
        RpcRequest { id, method: String::from_str(method), params }
    }
}

impl RpcRequest {
    /// The request as JSON; see [`request_json`].
    pub fn to_json(&self) -> (j: JsonValue)
        ensures
            j@ == request_json(self.id@, self.method@, self.params@),
    {
        let mut members: Vec<(String, JsonValue)> = Vec::new();
        members.push((String::from_str("id"), JsonValue::String(self.id.clone())));
        members.push((String::from_str("method"), JsonValue::String(self.method.clone())));
        members.push((String::from_str("params"), self.params.duplicate()));
        let j = JsonValue::Object(members);
        proof {
            crate::json::lemma_members_view(members@, 3);
            assert(crate::json::members_view(members@, 3) =~= seq![
                ("id"@, Json::String(self.id@)),
                ("method"@, Json::String(self.method@)),
                ("params"@, self.params@),
            ]);
        }
        j
    }
}

/// The parameters of a tool call: `{"args": ..., "name": ...}`.
pub fn call_params(name: &str, args: JsonValue) -> (j: JsonValue)
    ensures
        j@ == Json::Object(seq![("args"@, args@), ("name"@, Json::String(name@))]),
{
    let mut members: Vec<(String, JsonValue)> = Vec::new();
    members.push((String::from_str("args"), args));
    members.push((String::from_str("name"), JsonValue::from_str(name)));
    let ghost a = members@[0].1@;
    let j = JsonValue::Object(members);
    proof {
        crate::json::lemma_members_view(members@, 2);
        assert(crate::json::members_view(members@, 2) =~= seq![
            ("args"@, a),
            ("name"@, Json::String(name@)),
        ]);
    }
    j
}

/// What the client makes of an answer: an answer for another request is refused
/// (`mismatched response id: expected <id>, got <id>`), an error answer gives its
/// message, else the result (`null` when absent).
pub open spec fn check_response_spec(expected: Seq<char>, r: ResponseModel) -> Result<Json, Seq<char>> {
    if r.id != expected {
        Err("mismatched response id: expected "@ + expected + ", got "@ + r.id)
    } else {
        match r.error {
            Some(m) => Err(m),
            None => match r.result {
                Some(v) => Ok(v),
                None => Ok(Json::Null),
            },
        }
    }
}

/// What the client makes of an answer; see [`check_response_spec`].
pub fn check_response(expected: &str, response: RpcResponse) -> (r: Result<JsonValue, String>)
    ensures
        match r {
            Ok(v) => check_response_spec(expected@, response@) == Ok::<_, Seq<char>>(v@),
            Err(m) => check_response_spec(expected@, response@) == Err::<Json, _>(m@),
        },
{
    if !str_eq(response.id.as_str(), expected) {
        let a = concat3("mismatched response id: expected ", expected, ", got ");
        return Err(concat_str(a.as_str(), response.id.as_str()));
    }
    match response.error {
        Some(e) => Err(e.message),
        None => match response.result {
            Some(v) => Ok(v),
            None => Ok(JsonValue::Null),
        },
    }
}

/// The tools of a listing: its `tools` member when it is an array, else none.
pub open spec fn listed_tools(result: Json) -> Seq<Json> {
    match get_spec(result, "tools"@) {
        Some(Json::Array(items)) => items,
        _ => seq![],
    }
}

/// The tools of a listing; see [`listed_tools`].
pub fn tools_of(result: &JsonValue) -> (r: Vec<JsonValue>)
    ensures
        r@.map_values(|v: JsonValue| v@) == listed_tools(result@),
{
    let mut out: Vec<JsonValue> = Vec::new();
    match result.get("tools") {
        Some(JsonValue::Array(items)) => {
            proof {
                lemma_items_view(items@, items@.len() as int);
            }
            let mut i: usize = 0;
            while i < items.len()
                invariant
                    i <= items@.len(),
                    out@.map_values(|v: JsonValue| v@) == crate::json::items_view(
                        items@,
                        items@.len() as int,
                    ).take(i as int),
                    crate::json::items_view(items@, items@.len() as int).len() == items@.len(),
                    forall|k: int|
                        0 <= k < items@.len() ==> #[trigger] crate::json::items_view(
                            items@,
                            items@.len() as int,
                        )[k] == items@[k]@,
                decreases items@.len() - i,
            {
                let ghost before = out@.map_values(|v: JsonValue| v@);
                let ghost iv = crate::json::items_view(items@, items@.len() as int);
                let d = items[i].duplicate();
                out.push(d);
                assert(out@.map_values(|v: JsonValue| v@) =~= before.push(iv[i as int]));
                assert(iv.take(i + 1) =~= iv.take(i as int).push(iv[i as int]));
                assert(out@.map_values(|v: JsonValue| v@) =~= crate::json::items_view(
                    items@,
                    items@.len() as int,
                ).take(i + 1));
                i = i + 1;
            }
            assert(crate::json::items_view(items@, items@.len() as int).take(i as int)
                =~= crate::json::items_view(items@, items@.len() as int));
        },
        _ => {
            assert(out@.map_values(|v: JsonValue| v@) =~= seq![]);
        },
    }
    out
}

} // verus!
