//! A JSON document model and its compact text rendering.
//!
//! Numbers are kept as the text that renders them, so that no floating-point
//! value is needed. Object members keep the order in which they are given.
use vstd::prelude::*;

use crate::text::{dec, push_char, u64_to_dec};

verus! {

/// A JSON value.
#[derive(Debug)]
pub enum JsonValue {
    Null,
    Bool(bool),
    Number(String),
    String(String),
    Array(Vec<JsonValue>),
    Object(Vec<(String, JsonValue)>),
}

/// The mathematical model of a JSON value.
pub ghost enum Json {
    Null,
    Bool(bool),
    Number(Seq<char>),
    String(Seq<char>),
    Array(Seq<Json>),
    Object(Seq<(Seq<char>, Json)>),
}

/// The models of the first `n` array elements.
pub open spec fn items_view(items: Seq<JsonValue>, n: int) -> Seq<Json>
    decreases items, n,
{
    if n <= 0 || n > items.len() {
        seq![]
    } else {
        items_view(items, n - 1).push(items[n - 1].view_of())
    }
}

/// The models of the first `n` object members.
pub open spec fn members_view(members: Seq<(String, JsonValue)>, n: int) -> Seq<(Seq<char>, Json)>
    decreases members, n,
{
    if n <= 0 || n > members.len() {
        seq![]
    } else {
        members_view(members, n - 1).push((members[n - 1].0@, members[n - 1].1.view_of()))
    }
}

impl JsonValue {
    /// The model of the value.
    pub open spec fn view_of(self) -> Json
        decreases self,
    {
        match self {
            JsonValue::Null => Json::Null,
            JsonValue::Bool(b) => Json::Bool(b),
            JsonValue::Number(n) => Json::Number(n@),
            JsonValue::String(s) => Json::String(s@),
            JsonValue::Array(items) => Json::Array(items_view(items@, items@.len() as int)),
            JsonValue::Object(members) => Json::Object(
                members_view(members@, members@.len() as int),
            ),
        }
    }
}

impl View for JsonValue {
    type V = Json;

    open spec fn view(&self) -> Json {
        self.view_of()
    }
}

/// The member `key` of an object: the value of the first member with that key.
pub open spec fn member(members: Seq<(Seq<char>, Json)>, key: Seq<char>) -> Option<Json>
    decreases members.len(),
{
    if members.len() == 0 {
        None
    } else if members[0].0 == key {
        Some(members[0].1)
    } else {
        member(members.drop_first(), key)
    }
}

/// `Value::get(key)` for an object, `None` for any other value.
pub open spec fn get_spec(v: Json, key: Seq<char>) -> Option<Json> {
    match v {
        Json::Object(members) => member(members, key),
        _ => None,
    }
}

/// `Value::as_str`.
pub open spec fn as_str_spec(v: Option<Json>) -> Option<Seq<char>> {
    match v {
        Some(Json::String(s)) => Some(s),
        _ => None,
    }
}

/// Four lowercase hexadecimal digits of a code point below 0x10000.
pub open spec fn hex4(u: nat) -> Seq<char> {
    seq![hex_digit(u / 4096 % 16), hex_digit(u / 256 % 16), hex_digit(u / 16 % 16), hex_digit(u % 16)]
}

/// A lowercase hexadecimal digit.
pub open spec fn hex_digit(d: nat) -> char {
    if d < 10 {
        ((48 + d) as u32) as char
    } else {
        ((87 + d) as u32) as char
    }
}

/// The escaped form of one character inside a JSON string.
pub open spec fn escape_char(c: char) -> Seq<char> {
    let u = c as u32;
    if c == '"' {
        seq!['\\', '"']
    } else if c == '\\' {
        seq!['\\', '\\']
    } else if c == '\n' {
        seq!['\\', 'n']
    } else if c == '\r' {
        seq!['\\', 'r']
    } else if c == '\t' {
        seq!['\\', 't']
    } else if u == 8 {
        seq!['\\', 'b']
    } else if u == 12 {
        seq!['\\', 'f']
    } else if u < 0x20 {
        seq!['\\', 'u'] + hex4(u as nat)
    } else {
        seq![c]
    }
}

/// The escaped body of a JSON string.
pub open spec fn escape_seq(s: Seq<char>) -> Seq<char>
    decreases s.len(),
{
    if s.len() == 0 {
        seq![]
    } else {
        escape_seq(s.drop_last()) + escape_char(s.last())
    }
}

/// A JSON string literal.
pub open spec fn quoted(s: Seq<char>) -> Seq<char> {
    seq!['"'] + escape_seq(s) + seq!['"']
}

/// Compact JSON text of a value, as `serde_json`'s `to_string` writes it.
pub open spec fn json_text(v: Json) -> Seq<char>
    decreases v,
{
    match v {
        Json::Null => "null"@,
        Json::Bool(b) => if b {
            "true"@
        } else {
            "false"@
        },
        Json::Number(n) => n,
        Json::String(s) => quoted(s),
        Json::Array(items) => seq!['['] + items_text(items, items.len() as int) + seq![']'],
        Json::Object(members) => seq!['{'] + members_text(members, members.len() as int) + seq![
            '}',
        ],
    }
}

/// The first `n` elements of an array, rendered and separated by commas.
pub open spec fn items_text(items: Seq<Json>, n: int) -> Seq<char>
    decreases items, n,
{
    if n <= 0 || n > items.len() {
        seq![]
    } else if n == 1 {
        json_text(items[0])
    } else {
        items_text(items, n - 1) + seq![','] + json_text(items[n - 1])
    }
}

/// The first `n` members of an object, rendered and separated by commas.
pub open spec fn members_text(members: Seq<(Seq<char>, Json)>, n: int) -> Seq<char>
    decreases members, n,
{
    if n <= 0 || n > members.len() {
        seq![]
    } else if n == 1 {
        quoted(members[0].0) + seq![':'] + json_text(members[0].1)
    } else {
        members_text(members, n - 1) + seq![','] + quoted(members[n - 1].0) + seq![':'] + json_text(
            members[n - 1].1,
        )
    }
}

fn hex_digit_of(d: u32) -> (c: char)
    requires
        d < 16,
    ensures
        c == hex_digit(d as nat),
{
    match d {
        0 => '0',
        1 => '1',
        2 => '2',
        3 => '3',
        4 => '4',
        5 => '5',
        6 => '6',
        7 => '7',
        8 => '8',
        9 => '9',
        10 => 'a',
        11 => 'b',
        12 => 'c',
        13 => 'd',
        14 => 'e',
        _ => 'f',
    }
}

fn push_escaped(out: &mut String, c: char)
    ensures
        final(out)@ == old(out)@ + escape_char(c),
{
    let u = c as u32;
    if c == '"' {
        push_char(out, '\\');
        push_char(out, '"');
    } else if c == '\\' {
        push_char(out, '\\');
        push_char(out, '\\');
    } else if c == '\n' {
        push_char(out, '\\');
        push_char(out, 'n');
    } else if c == '\r' {
        push_char(out, '\\');
        push_char(out, 'r');
    } else if c == '\t' {
        push_char(out, '\\');
        push_char(out, 't');
    } else if u == 8 {
        push_char(out, '\\');
        push_char(out, 'b');
    } else if u == 12 {
        push_char(out, '\\');
        push_char(out, 'f');
    } else if u < 0x20 {
        push_char(out, '\\');
        push_char(out, 'u');
        push_char(out, hex_digit_of(u / 4096 % 16));
        push_char(out, hex_digit_of(u / 256 % 16));
        push_char(out, hex_digit_of(u / 16 % 16));
        push_char(out, hex_digit_of(u % 16));
    } else {
        push_char(out, c);
    }
    assert(final(out)@ =~= old(out)@ + escape_char(c));
}

fn push_quoted(out: &mut String, s: &str)
    ensures
        final(out)@ == old(out)@ + quoted(s@),
{
    let cs = crate::text::chars_of(s);
    push_char(out, '"');
    let ghost start = out@;
    let mut i: usize = 0;
    while i < cs.len()
        invariant
            cs@ == s@,
            i <= cs@.len(),
            out@ == start + escape_seq(s@.take(i as int)),
        decreases cs@.len() - i,
    {
        push_escaped(out, cs[i]);
        proof {
            let t = s@.take(i + 1);
            assert(t.drop_last() =~= s@.take(i as int));
            assert(t.last() == cs@[i as int]);
        }
        i = i + 1;
    }
    assert(s@.take(cs@.len() as int) =~= s@);
    push_char(out, '"');
    assert(out@ =~= old(out)@ + quoted(s@));
}

/// The models of the first `n` array elements, one by one.
pub proof fn lemma_items_view(items: Seq<JsonValue>, n: int)
    requires
        0 <= n <= items.len(),
    ensures
        items_view(items, n).len() == n,
        forall|k: int| 0 <= k < n ==> #[trigger] items_view(items, n)[k] == items[k]@,
    decreases n,
{
    if n > 0 {
        lemma_items_view(items, n - 1);
    }
}

/// The models of the first `n` object members, one by one.
pub proof fn lemma_members_view(members: Seq<(String, JsonValue)>, n: int)
    requires
        0 <= n <= members.len(),
    ensures
        members_view(members, n).len() == n,
        forall|k: int|
            0 <= k < n ==> #[trigger] members_view(members, n)[k] == (
                members[k].0@,
                members[k].1@,
            ),
    decreases n,
{
    if n > 0 {
        lemma_members_view(members, n - 1);
    }
}

/// Elements with equal models give equal array models.
pub proof fn lemma_items_view_eq(a: Seq<JsonValue>, b: Seq<JsonValue>, n: int)
    requires
        0 <= n <= a.len(),
        n <= b.len(),
        forall|k: int| 0 <= k < n ==> #[trigger] a[k]@ == b[k]@,
    ensures
        items_view(a, n) == items_view(b, n),
    decreases n,
{
    if n > 0 {
        lemma_items_view_eq(a, b, n - 1);
        assert(a[n - 1]@ == b[n - 1]@);
    }
}

/// Members with equal keys and models give equal object models.
pub proof fn lemma_members_view_eq(a: Seq<(String, JsonValue)>, b: Seq<(String, JsonValue)>, n: int)
    requires
        0 <= n <= a.len(),
        n <= b.len(),
        forall|k: int| #![trigger a[k]] 0 <= k < n ==> a[k].0@ == b[k].0@ && a[k].1@ == b[k].1@,
    ensures
        members_view(a, n) == members_view(b, n),
    decreases n,
{
    if n > 0 {
        lemma_members_view_eq(a, b, n - 1);
        assert(a[n - 1].0@ == b[n - 1].0@);
    }
}

proof fn lemma_items_text_prefix(items: Seq<Json>, n: int, m: int)
    requires
        0 <= m <= n <= items.len(),
    ensures
        items_text(items, m) == items_text(items.take(n), m),
    decreases m,
{
    if m > 1 {
        lemma_items_text_prefix(items, n, m - 1);
    }
}

proof fn lemma_members_text_prefix(members: Seq<(Seq<char>, Json)>, n: int, m: int)
    requires
        0 <= m <= n <= members.len(),
    ensures
        members_text(members, m) == members_text(members.take(n), m),
    decreases m,
{
    if m > 1 {
        lemma_members_text_prefix(members, n, m - 1);
    }
}

/// Appends the compact JSON text of `v` to `out`.
pub fn write_json(v: &JsonValue, out: &mut String)
    ensures
        final(out)@ == old(out)@ + json_text(v@),
    decreases v,
{
    match v {
        JsonValue::Null => {
            out.append("null");
            proof {
                reveal_strlit("null");
            }
        },
        JsonValue::Bool(b) => {
            if *b {
                out.append("true");
                proof {
                    reveal_strlit("true");
                }
            } else {
                out.append("false");
                proof {
                    reveal_strlit("false");
                }
            }
        },
        JsonValue::Number(n) => {
            out.append(n.as_str());
        },
        JsonValue::String(s) => {
            push_quoted(out, s.as_str());
        },
        JsonValue::Array(items) => {
            let ghost model = items_view(items@, items@.len() as int);
            proof {
                lemma_items_view(items@, items@.len() as int);
            }
            push_char(out, '[');
            let ghost start = out@;
            let mut i: usize = 0;
            while i < items.len()
                invariant
                    i <= items@.len(),
                    out@ == start + items_text(model, i as int),
                    *v == JsonValue::Array(*items),
                    model == items_view(items@, items@.len() as int),
                    model.len() == items@.len(),
                    forall|k: int| 0 <= k < items@.len() ==> #[trigger] model[k] == items@[k]@,
                decreases items@.len() - i,
            {
                if i > 0 {
                    push_char(out, ',');
                }
                assert(decreases_to!(*v => v->Array_0));
                assert(decreases_to!(v->Array_0 => v->Array_0[i as int]));
                write_json(&items[i], out);
                assert(model[i as int] == items@[i as int]@);
                i = i + 1;
                assert(out@ =~= start + items_text(model, i as int));
            }
            push_char(out, ']');
            assert(out@ =~= old(out)@ + json_text(v@));
        },
        JsonValue::Object(members) => {
            let ghost model = members_view(members@, members@.len() as int);
            proof {
                lemma_members_view(members@, members@.len() as int);
            }
            push_char(out, '{');
            let ghost start = out@;
            let mut i: usize = 0;
            while i < members.len()
                invariant
                    i <= members@.len(),
                    out@ == start + members_text(model, i as int),
                    *v == JsonValue::Object(*members),
                    model == members_view(members@, members@.len() as int),
                    model.len() == members@.len(),
                    forall|k: int|
                        0 <= k < members@.len() ==> #[trigger] model[k] == (
                            members@[k].0@,
                            members@[k].1@,
                        ),
                decreases members@.len() - i,
            {
                if i > 0 {
                    push_char(out, ',');
                }
                let m = &members[i];
                push_quoted(out, m.0.as_str());
                push_char(out, ':');
                assert(decreases_to!(*v => v->Object_0));
                assert(decreases_to!(v->Object_0 => v->Object_0[i as int]));
                assert(decreases_to!(v->Object_0[i as int] => v->Object_0[i as int].1));
                write_json(&m.1, out);
                assert(model[i as int] == (members@[i as int].0@, members@[i as int].1@));
                i = i + 1;
                assert(out@ =~= start + members_text(model, i as int));
            }
            push_char(out, '}');
            assert(out@ =~= old(out)@ + json_text(v@));
        },
    }
}

impl JsonValue {
    /// Compact JSON text of the value (`Value::to_string`).
    pub fn to_json_string(&self) -> (s: String)
        ensures
            s@ == json_text(self@),
    {
        let mut s = String::new();
        write_json(self, &mut s);
        assert(s@ =~= json_text(self@));
        s
    }

    /// A JSON number holding an unsigned integer.
    pub fn from_u64(n: u64) -> (v: JsonValue)
        ensures
            v@ == Json::Number(dec(n as nat)),
    {
        JsonValue::Number(u64_to_dec(n))
    }

    /// A JSON string.
    pub fn from_str(s: &str) -> (v: JsonValue)
        ensures
            v@ == Json::String(s@),
    {
        JsonValue::String(String::from_str(s))
    }

    /// An object with a single member.
    pub fn object1(key: &str, value: JsonValue) -> (v: JsonValue)
        ensures
            v@ == Json::Object(seq![(key@, value@)]),
    {
        let mut ms: Vec<(String, JsonValue)> = Vec::new();
        ms.push((String::from_str(key), value));
        let v = JsonValue::Object(ms);
        proof {
            lemma_members_view(ms@, 1);
            assert(members_view(ms@, 1) =~= seq![(key@, value@)]);
        }
        v
    }

    /// An empty object.
    pub fn empty_object() -> (v: JsonValue)
        ensures
            v@ == Json::Object(seq![]),
    {
        let v = JsonValue::Object(Vec::new());
        assert(v@ matches Json::Object(m) && m =~= seq![]);
        v
    }

    /// A deep copy of the value.
    pub fn duplicate(&self) -> (r: JsonValue)
        ensures
            r@ == self@,
        decreases self,
    {
        match self {
            JsonValue::Null => JsonValue::Null,
            JsonValue::Bool(b) => JsonValue::Bool(*b),
            JsonValue::Number(n) => JsonValue::Number(n.clone()),
            JsonValue::String(s) => JsonValue::String(s.clone()),
            JsonValue::Array(items) => {
                let mut out: Vec<JsonValue> = Vec::new();
                let mut i: usize = 0;
                while i < items.len()
                    invariant
                        i <= items@.len(),
                        out@.len() == i,
                        forall|k: int| 0 <= k < i ==> #[trigger] out@[k]@ == items@[k]@,
                        *self == JsonValue::Array(*items),
                    decreases items@.len() - i,
                {
                    assert(decreases_to!(*self => self->Array_0));
                    assert(decreases_to!(self->Array_0 => self->Array_0[i as int]));
                    out.push(items[i].duplicate());
                    i = i + 1;
                }
                proof {
                    lemma_items_view_eq(out@, items@, items@.len() as int);
                }
                JsonValue::Array(out)
            },
            JsonValue::Object(members) => {
                let mut out: Vec<(String, JsonValue)> = Vec::new();
                let mut i: usize = 0;
                while i < members.len()
                    invariant
                        i <= members@.len(),
                        out@.len() == i,
                        forall|k: int|
                            #![trigger out@[k]]
                            0 <= k < i ==> out@[k].0@ == members@[k].0@ && out@[k].1@
                                == members@[k].1@,
                        *self == JsonValue::Object(*members),
                    decreases members@.len() - i,
                {
                    assert(decreases_to!(*self => self->Object_0));
                    assert(decreases_to!(self->Object_0 => self->Object_0[i as int]));
                    assert(decreases_to!(self->Object_0[i as int] => self->Object_0[i as int].1));
                    let m = &members[i];
                    out.push((m.0.clone(), m.1.duplicate()));
                    i = i + 1;
                }
                proof {
                    lemma_members_view_eq(out@, members@, members@.len() as int);
                }
                JsonValue::Object(out)
            },
        }
    }

    /// The member `key` of an object (`Value::get`).
    pub fn get(&self, key: &str) -> (r: Option<&JsonValue>)
        ensures
            r matches Some(x) ==> get_spec(self@, key@) == Some(x@),
            r is None ==> get_spec(self@, key@) is None,
    {
        match self {
            JsonValue::Object(members) => {
                let ghost model = members_view(members@, members@.len() as int);
                proof {
                    lemma_members_view(members@, members@.len() as int);
                }
                let mut i: usize = 0;
                assert(model.skip(0) =~= model);
                assert(self@ == Json::Object(model));
                while i < members.len()
                    invariant
                        i <= members@.len(),
                        model.len() == members@.len(),
                        forall|k: int|
                            0 <= k < members@.len() ==> #[trigger] model[k] == (
                                members@[k].0@,
                                members@[k].1@,
                            ),
                        member(model, key@) == member(model.skip(i as int), key@),
                        self@ == Json::Object(model),
                    decreases members@.len() - i,
                {
                    let ghost rest = model.skip(i as int);
                    assert(rest[0] == model[i as int]);
                    assert(model[i as int] == (members@[i as int].0@, members@[i as int].1@));
                    if crate::text::str_eq(members[i].0.as_str(), key) {
                        assert(rest[0].0 == key@);
                        assert(member(rest, key@) == Some(rest[0].1));
                        return Some(&members[i].1);
                    }
                    assert(rest.drop_first() =~= model.skip(i + 1));
                    i = i + 1;
                }
                None
            },
            _ => None,
        }
    }

    /// The text of a JSON string value (`Value::as_str`).
    pub fn as_str(&self) -> (r: Option<&str>)
        ensures
            r matches Some(t) ==> as_str_spec(Some(self@)) == Some(t@),
            r is None ==> as_str_spec(Some(self@)) is None,
    {
        match self {
            JsonValue::String(s) => Some(s.as_str()),
            _ => None,
        }
    }
}

} // verus!
