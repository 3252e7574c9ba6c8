//! A minimal agent-to-agent protocol over HTTP: an agent card, one-shot tasks, and the
//! task's output streamed back as server-sent events.
//!
//! The HTTP exchanges themselves are made by the caller; the addresses, the bodies and
//! the bookkeeping of tasks are here.
use vstd::prelude::*;

use crate::agent::{output_text_spec, AgentOutput};
use crate::assoc::{assoc_get, assoc_map, assoc_upsert};
use crate::error::{failure_text, Failure, NuroError};
use crate::json::{lemma_members_view, members_view, Json, JsonValue};
use crate::message::messages_view;
use crate::text::{
    chars_of, chunk_chars, chunks_of, concat3, concat_str, dec, string_from_chars, strip_prefix_str,
    trim, trim_str, u64_to_dec, views,
};

verus! {

/// What a remote agent says about itself.
#[derive(Debug)]
pub struct AgentCard {
    pub name: String,
    pub description: String,
    pub url: String,
    pub version: String,
}

/// The body of a task request.
#[derive(Debug)]
pub struct TaskCreateRequest {
    pub input: String,
}

/// The answer to a task request: the task's id and its output.
#[derive(Debug)]
pub struct TaskCreateResponse {
    pub id: String,
    pub output: String,
}

/// The JSON form of a card, members in key order.
pub open spec fn card_json(name: Seq<char>, description: Seq<char>, url: Seq<char>, version: Seq<char>) -> Json {
    Json::Object(
        seq![
            ("description"@, Json::String(description)),
            ("name"@, Json::String(name)),
            ("url"@, Json::String(url)),
            ("version"@, Json::String(version)),
        ],
    )
}

impl AgentCard {
    /// The card as JSON; see [`card_json`].
    pub fn to_json(&self) -> (j: JsonValue)
        ensures
            j@ == card_json(self.name@, self.description@, self.url@, self.version@),
    {
        let mut members: Vec<(String, JsonValue)> = Vec::new();
        members.push((String::from_str("description"), JsonValue::String(self.description.clone())));
        members.push((String::from_str("name"), JsonValue::String(self.name.clone())));
        members.push((String::from_str("url"), JsonValue::String(self.url.clone())));
        members.push((String::from_str("version"), JsonValue::String(self.version.clone())));
        let j = JsonValue::Object(members);
        proof {
            lemma_members_view(members@, 4);
            assert(members_view(members@, 4) =~= seq![
                ("description"@, Json::String(self.description@)),
                ("name"@, Json::String(self.name@)),
                ("url"@, Json::String(self.url@)),
                ("version"@, Json::String(self.version@)),
            ]);
        }
        j
    }
}

/// The card a server gives for itself: its name, description and version, and the URL
/// `http://<address>`.
pub fn server_card(name: &str, description: &str, version: &str, address: &str) -> (c: AgentCard)
    ensures
        c.name@ == name@,
        c.description@ == description@,
        c.version@ == version@,
        c.url@ == "http://"@ + address@,
{
    AgentCard {
        name: String::from_str(name),
        description: String::from_str(description),
        url: concat_str("http://", address),
        version: String::from_str(version),
    }
}

/// A text without its trailing slashes.
pub open spec fn trim_slashes(s: Seq<char>) -> Seq<char>
    decreases s.len(),
{
    if s.len() > 0 && s.last() == '/' {
        trim_slashes(s.drop_last())
    } else {
        s
    }
}

/// A text without its trailing slashes (`trim_end_matches('/')`).
pub fn trim_trailing_slashes(s: &str) -> (r: String)
    ensures
        r@ == trim_slashes(s@),
{
    let cs = chars_of(s);
    let mut n = cs.len();
    assert(cs@.take(n as int) =~= cs@);
    while n > 0 && cs[n - 1] == '/'
        invariant
            n <= cs@.len(),
            trim_slashes(cs@) == trim_slashes(cs@.take(n as int)),
        decreases n,
    {
        assert(cs@.take(n as int).drop_last() =~= cs@.take(n - 1));
        n = n - 1;
    }
    let r = string_from_chars(&cs.as_slice()[0..n]);
    assert(r@ =~= cs@.take(n as int));
    r
}

/// Where an agent's card is: `<url>/.well-known/agent.json`, trailing slashes of the URL
/// dropped.
pub fn discover_url(url: &str) -> (r: String)
    ensures
        r@ == trim_slashes(url@) + "/.well-known/agent.json"@,
{
    let base = trim_trailing_slashes(url);
    concat_str(base.as_str(), "/.well-known/agent.json")
}

/// Where tasks are sent: `<base>/tasks`.
pub fn tasks_url(base_url: &str) -> (r: String)
    ensures
        r@ == trim_slashes(base_url@) + "/tasks"@,
{
    let base = trim_trailing_slashes(base_url);
    concat_str(base.as_str(), "/tasks")
}

/// Where a task's output is streamed: `<base>/tasks/<id>/stream`.
pub fn stream_url(base_url: &str, task_id: &str) -> (r: String)
    ensures
        r@ == trim_slashes(base_url@) + "/tasks/"@ + task_id@ + "/stream"@,
{
    let base = trim_trailing_slashes(base_url);
    let a = concat3(base.as_str(), "/tasks/", task_id);
    concat_str(a.as_str(), "/stream")
}

/// Length of the first line of `s` (the characters before the first newline).
pub open spec fn line_len(s: Seq<char>) -> nat
    decreases s.len(),
{
    if s.len() == 0 || s[0] == '\n' {
        0
    } else {
        1 + line_len(s.drop_first())
    }
}

/// The first line ends at a newline, or at the end of the text.
pub proof fn lemma_line_len(s: Seq<char>)
    ensures
        line_len(s) <= s.len(),
        line_len(s) < s.len() ==> s[line_len(s) as int] == '\n',
        forall|k: int| 0 <= k < line_len(s) ==> s[k] != '\n',
    decreases s.len(),
{
    if s.len() > 0 && s[0] != '\n' {
        lemma_line_len(s.drop_first());
        assert forall|k: int| 0 <= k < line_len(s) implies s[k] != '\n' by {
            if k > 0 {
                assert(s[k] == s.drop_first()[k - 1]);
            }
        }
    }
}

/// The lines of a text (`str::lines`): split at newlines, a carriage return before a
/// newline dropped, no empty line after a final newline.
pub open spec fn lines_spec(s: Seq<char>) -> Seq<Seq<char>>
    decreases s.len(),
{
    if s.len() == 0 {
        seq![]
    } else {
        let n = line_len(s);
        if n >= s.len() {
            seq![s]
        } else {
            let raw = s.take(n as int);
            let line = if raw.len() > 0 && raw.last() == '\r' {
                raw.drop_last()
            } else {
                raw
            };
            proof {
                lemma_line_len(s);
            }
            seq![line] + lines_spec(s.skip((n + 1) as int))
        }
    }
}

/// The data of the `data:` lines of an event stream, trimmed, in order.
pub open spec fn sse_data(lines: Seq<Seq<char>>) -> Seq<Seq<char>>
    decreases lines.len(),
{
    if lines.len() == 0 {
        seq![]
    } else {
        let l = lines[0];
        let rest = sse_data(lines.drop_first());
        if l.len() >= 5 && l.take(5) == "data:"@ {
            seq![trim(l.skip(5))] + rest
        } else {
            rest
        }
    }
}

/// The lines of `cs` from `start` on.
fn lines_from(cs: &Vec<char>, start: usize) -> (r: Vec<String>)
    requires
        start <= cs@.len(),
    ensures
        views(r@) == lines_spec(cs@.skip(start as int)),
    decreases cs@.len() - start,
{
    let n = cs.len();
    if start == n {
        let r = Vec::new();
        assert(views(r@) =~= seq![]);
        assert(cs@.skip(start as int) =~= seq![]);
        return r;
    }
    let ghost s = cs@.skip(start as int);
    proof {
        lemma_line_len(s);
    }
    let mut end = start;
    while end < n && cs[end] != '\n'
        invariant
            start <= end <= n,
            n == cs@.len(),
            s == cs@.skip(start as int),
            forall|k: int| start <= k < end ==> cs@[k] != '\n',
        decreases n - end,
    {
        end = end + 1;
    }
    proof {
        assert forall|k: int| 0 <= k < end - start implies s[k] != '\n' by {
            assert(s[k] == cs@[k + start]);
        }
        if end < n {
            assert(s[end - start] == '\n');
        }
        lemma_line_len_exact(s, (end - start) as nat);
    }
    if end == n {
        let line = string_from_chars(&cs.as_slice()[start..n]);
        let mut r = Vec::new();
        r.push(line);
        assert(line@ =~= s);
        assert(views(r@) =~= seq![s]);
        return r;
    }
    let line_end = if end > start && cs[end - 1] == '\r' {
        end - 1
    } else {
        end
    };
    let line = string_from_chars(&cs.as_slice()[start..line_end]);
    let rest = lines_from(cs, end + 1);
    proof {
        let raw = s.take(end - start);
        if end > start && cs@[end - 1] == '\r' {
            assert(raw.last() == '\r');
            assert(line@ =~= raw.drop_last());
        } else {
            if raw.len() > 0 {
                assert(raw.last() == cs@[end - 1]);
            }
            assert(line@ =~= raw);
        }
        assert(s.skip(end - start + 1) =~= cs@.skip(end + 1));
    }
    let mut r = Vec::new();
    r.push(line);
    let mut i: usize = 0;
    let ghost first = views(r@);
    while i < rest.len()
        invariant
            i <= rest@.len(),
            views(r@) == first + views(rest@).take(i as int),
        decreases rest@.len() - i,
    {
        let ghost before = views(r@);
        let c = rest[i].clone();
        r.push(c);
        assert(views(r@) =~= before.push(views(rest@)[i as int]));
        assert(views(rest@).take(i + 1) =~= views(rest@).take(i as int).push(views(rest@)[i as int]));
        i = i + 1;
    }
    assert(views(rest@).take(i as int) =~= views(rest@));
    r
}

proof fn lemma_line_len_exact(s: Seq<char>, n: nat)
    requires
        n <= s.len(),
        forall|k: int| 0 <= k < n ==> s[k] != '\n',
        n < s.len() ==> s[n as int] == '\n',
    ensures
        line_len(s) == n,
    decreases n,
{
    if n > 0 {
        lemma_line_len_exact(s.drop_first(), (n - 1) as nat);
    }
}

/// The data chunks of an event-stream body; see [`sse_data`].
pub fn parse_sse_data(body: &str) -> (r: Vec<String>)
    ensures
        views(r@) == sse_data(lines_spec(body@)),
{
    let cs = chars_of(body);
    let lines = lines_from(&cs, 0);
    assert(cs@.skip(0) =~= cs@);
    let ghost ls = views(lines@);
    let mut out: Vec<String> = Vec::new();
    let mut n = lines.len();
    assert(ls.skip(n as int) =~= seq![]);
    let mut rev: Vec<String> = Vec::new();
    let mut i: usize = 0;
    assert(ls.skip(0) =~= ls);
    while i < lines.len()
        invariant
            i <= lines@.len(),
            ls == views(lines@),
            views(out@) + sse_data(ls.skip(i as int)) == sse_data(ls),
        decreases lines@.len() - i,
    {
        let ghost tail = ls.skip(i as int);
        assert(tail[0] == lines@[i as int]@);
        assert(tail.drop_first() =~= ls.skip(i + 1));
        match strip_prefix_str(lines[i].as_str(), "data:") {
            Some(rest) => {
                proof {
                    reveal_strlit("data:");
                }
                let d = trim_str(rest.as_str());
                let ghost before = views(out@);
                out.push(d);
                assert(views(out@) =~= before.push(d@));
                assert(views(out@) + sse_data(ls.skip(i + 1)) =~= before + sse_data(tail));
            },
            None => {
                proof {
                    reveal_strlit("data:");
                }
            },
        }
        i = i + 1;
    }
    assert(ls.skip(i as int) =~= seq![]);
    assert(views(out@) + sse_data(seq![]) =~= views(out@));
    out
}

/// The pieces in which a task's output is streamed: none for an empty text or no
/// pieces; else the text cut into at most `max_chunks` pieces of equal length (the last
/// one possibly shorter).
pub open spec fn split_spec(text: Seq<char>, max_chunks: nat) -> Seq<Seq<char>> {
    if text.len() == 0 || max_chunks == 0 {
        seq![]
    } else {
        let count: nat = if max_chunks < text.len() {
            max_chunks
        } else {
            text.len()
        };
        let size: nat = if text.len() % count == 0 {
            text.len() / count
        } else {
            text.len() / count + 1
        };
        chunks_of(text, size)
    }
}

/// The pieces in which a task's output is streamed; see [`split_spec`].
pub fn split_into_chunks(text: &str, max_chunks: usize) -> (r: Vec<String>)
    ensures
        views(r@) == split_spec(text@, max_chunks as nat),
{
    let chars = chars_of(text);
    let len = chars.len();
    if len == 0 || max_chunks == 0 {
        let r = Vec::new();
        assert(views(r@) =~= seq![]);
        return r;
    }
    let count = if max_chunks < len {
        max_chunks
    } else {
        len
    };
    assert(len % count != 0 ==> len / count < len) by (nonlinear_arith)
        requires
            count >= 1,
            len >= count,
    ;
    let size = if len % count == 0 {
        len / count
    } else {
        len / count + 1
    };
    assert(size > 0) by (nonlinear_arith)
        requires
            count >= 1,
            len >= count,
            size >= len / count,
    ;
    chunk_chars(&chars, size)
}

/// The output a server answers for a task: the agent's output text (empty without
/// one), or `A2A task execution error: <error>`.
pub open spec fn task_output_spec(r: Result<Seq<crate::message::MessageView>, Failure>) -> Seq<char> {
    match r {
        Ok(ms) => match output_text_spec(ms) {
            Some(t) => t,
            None => seq![],
        },
        Err(f) => "A2A task execution error: "@ + failure_text(f),
    }
}

/// The output a server answers for a task; see [`task_output_spec`].
pub fn task_output_text(result: Result<AgentOutput, NuroError>) -> (s: String)
    ensures
        s@ == task_output_spec(
            match result {
                Ok(o) => Ok(messages_view(o.messages@)),
                Err(e) => Err(e@),
            },
        ),
{
    match result {
        Ok(out) => match out.text() {
            Some(t) => t,
            None => String::new(),
        },
        Err(e) => {
            let t = e.to_text();
            concat_str("A2A task execution error: ", t.as_str())
        },
    }
}

/// The tasks a server has run: their outputs by id, and the number of the next one.
#[derive(Debug)]
pub struct A2aTaskBook {
    outputs: Vec<(String, String)>,
    next_id: u64,
}

/// The model of a task book.
pub ghost struct TaskBookView {
    pub outputs: Map<Seq<char>, Seq<char>>,
    pub next_id: u64,
}

impl View for A2aTaskBook {
    type V = TaskBookView;

    closed spec fn view(&self) -> TaskBookView {
        TaskBookView {
            outputs: assoc_map(self.outputs@).map_values(|s: String| s@),
            next_id: self.next_id,
        }
    }
}

/// The pieces a server streams for task `id`: its output in at most three pieces, or
/// the single piece `task '<id>' not found`.
pub open spec fn stream_chunks_spec(outputs: Map<Seq<char>, Seq<char>>, id: Seq<char>) -> Seq<Seq<char>> {
    if outputs.contains_key(id) {
        split_spec(outputs[id], 3)
    } else {
        seq!["task '"@ + id + "' not found"@]
    }
}

impl A2aTaskBook {
    /// An empty book whose first task is numbered 1.
    pub fn new() -> (b: A2aTaskBook)
        ensures
            b@.outputs == Map::<Seq<char>, Seq<char>>::empty(),
            b@.next_id == 1,
    {
        let b = A2aTaskBook { outputs: Vec::new(), next_id: 1 };
        assert(b@.outputs =~= Map::<Seq<char>, Seq<char>>::empty());
        b
    }

    /// The number the next task will carry.
    pub fn next_number(&self) -> (n: u64)
        ensures
            n == self@.next_id,
    {
        self.next_id
    }

    /// Records the output of a new task `task-<n>` and answers with its id and output.
    pub fn record(&mut self, output: String) -> (r: TaskCreateResponse)
        requires
            old(self)@.next_id < u64::MAX,
        ensures
            r.id@ == "task-"@ + dec(old(self)@.next_id as nat),
            r.output@ == output@,
            final(self)@.outputs == old(self)@.outputs.insert(r.id@, output@),
            final(self)@.next_id == old(self)@.next_id + 1,
    {
        let digits = u64_to_dec(self.next_id);
        let id = concat_str("task-", digits.as_str());
        self.next_id = self.next_id + 1;
        let ghost before = assoc_map(self.outputs@);
        assoc_upsert(&mut self.outputs, id.clone(), output.clone());
        assert(self@.outputs =~= before.map_values(|s: String| s@).insert(id@, output@));
        TaskCreateResponse { id, output }
    }

    /// The pieces streamed for task `id`; see [`stream_chunks_spec`].
    pub fn stream_chunks(&self, id: &str) -> (r: Vec<String>)
        ensures
            views(r@) == stream_chunks_spec(self@.outputs, id@),
    {
        match assoc_get(&self.outputs, id) {
            Some(text) => split_into_chunks(text.as_str(), 3),
            None => {
                let mut r = Vec::new();
                r.push(concat3("task '", id, "' not found"));
                assert(views(r@) =~= seq!["task '"@ + id@ + "' not found"@]);
                r
            },
        }
    }
}

} // verus!
