//! Conversation memory: a window of the latest messages, and a store of conversations.
use vstd::prelude::*;

use crate::assoc::{assoc_get, assoc_map, assoc_upsert};
use crate::error::NuroError;
use crate::message::{duplicate_messages, messages_view, text_content_spec, Message, MessageView};
use crate::text::{contains_seq, contains_str, is_blank, trim};

verus! {

/// The last `max` messages of `ms` (all of them when there are fewer).
pub open spec fn window(ms: Seq<MessageView>, max: nat) -> Seq<MessageView> {
    if ms.len() > max {
        ms.skip(ms.len() - max)
    } else {
        ms
    }
}

/// A conversation memory that keeps only the latest `max_messages` messages.
#[derive(Debug)]
pub struct ConversationMemory {
    max_messages: usize,
    messages: Vec<Message>,
}

impl View for ConversationMemory {
    type V = Seq<MessageView>;

    closed spec fn view(&self) -> Seq<MessageView> {
        messages_view(self.messages@)
    }
}

impl ConversationMemory {
    /// The limit on the number of messages.
    pub closed spec fn limit(&self) -> nat {
        self.max_messages as nat
    }

    /// An empty memory keeping at most `max_messages` messages.
    pub fn new(max_messages: usize) -> (m: ConversationMemory)
        ensures
            m@ == Seq::<MessageView>::empty(),
            m.limit() == max_messages,
    {
        let m = ConversationMemory { max_messages, messages: Vec::new() };
        assert(m@ =~= Seq::<MessageView>::empty());
        m
    }

    /// The limit on the number of messages.
    pub fn max_messages(&self) -> (n: usize)
        ensures
            n == self.limit(),
    {
        self.max_messages
    }

    /// Appends a message, then drops the oldest ones beyond the limit.
    pub fn push(&mut self, message: Message)
        ensures
            final(self)@ == window(old(self)@.push(message@), old(self).limit()),
            final(self).limit() == old(self).limit(),
    {
        let ghost all = self@.push(message@);
        self.messages.push(message);
        assert(messages_view(self.messages@) =~= all);
        if self.messages.len() > self.max_messages {
            let overflow = self.messages.len() - self.max_messages;
            let ghost before = self.messages@;
            let tail = self.messages.split_off(overflow);
            self.messages = tail;
            assert(messages_view(self.messages@) =~= all.skip(all.len() - self.max_messages));
        }
    }

    /// The messages kept, oldest first.
    pub fn messages(&self) -> (r: &Vec<Message>)
        ensures
            messages_view(r@) == self@,
    {
        &self.messages
    }
}

/// Keeping a window of the latest messages one message at a time is the same as keeping
/// the window of all messages pushed: pushing onto a window and cutting again gives the
/// window of the longer history.
pub proof fn lemma_window_push(ms: Seq<MessageView>, m: MessageView, max: nat)
    ensures
        window(window(ms, max).push(m), max) == window(ms.push(m), max),
        window(ms, max).len() <= max,
{
    let w = window(ms, max);
    let a = ms.push(m);
    if ms.len() > max {
        assert(w.push(m) =~= a.skip(a.len() - max - 1));
        assert(window(w.push(m), max) =~= a.skip(a.len() - max));
    } else {
        assert(w.push(m) =~= a);
    }
}

/// The memory after pushing each of `xs` in turn onto the memory `w` with limit `max`,
/// as [`ConversationMemory::push`] does.
pub open spec fn pushed_all(w: Seq<MessageView>, xs: Seq<MessageView>, max: nat) -> Seq<MessageView>
    decreases xs.len(),
{
    if xs.len() == 0 {
        w
    } else {
        window(pushed_all(w, xs.drop_last(), max).push(xs.last()), max)
    }
}

/// A memory keeps the latest messages of any sequence of pushes: starting empty and
/// pushing `xs` one by one leaves the last `max` of them (all when there are fewer), in
/// push order, so never more than `max`.
pub proof fn lemma_pushes_keep_latest(xs: Seq<MessageView>, max: nat)
    ensures
        pushed_all(seq![], xs, max) == window(xs, max),
        pushed_all(seq![], xs, max).len() <= max,
        xs.len() <= max ==> pushed_all(seq![], xs, max) == xs,
        xs.len() > max ==> pushed_all(seq![], xs, max) == xs.skip(xs.len() - max),
    decreases xs.len(),
{
    if xs.len() > 0 {
        let init = xs.drop_last();
        lemma_pushes_keep_latest(init, max);
        lemma_window_push(init, xs.last(), max);
        assert(init.push(xs.last()) =~= xs);
    }
    lemma_window_push(xs, xs.last(), max);
}

/// One more push keeps the law: a memory holding what pushing `xs` left, after
/// [`ConversationMemory::push`] of `x` (which gives `window(old.push(x), limit)`), holds
/// what pushing `xs` then `x` leaves, which is the last `max` of `xs` then `x`. With
/// [`ConversationMemory::new`] (an empty memory), this carries the law of
/// [`lemma_pushes_keep_latest`] through any number of calls of `push`.
pub proof fn lemma_push_extends_history(held: Seq<MessageView>, xs: Seq<MessageView>, x: MessageView, max: nat)
    requires
        held == pushed_all(seq![], xs, max),
    ensures
        window(held.push(x), max) == pushed_all(seq![], xs.push(x), max),
        window(held.push(x), max) == window(xs.push(x), max),
        window(held.push(x), max).len() <= max,
{
    assert(xs.push(x).drop_last() =~= xs);
    assert(xs.push(x).last() == x);
    lemma_pushes_keep_latest(xs.push(x), max);
}

/// What `str::to_lowercase` makes of a text (full Unicode lower case).
pub uninterp spec fn lowercase(s: Seq<char>) -> Seq<char>;

/// `str::to_lowercase`; the contract claims only that the result is a function of the
/// text.
#[verifier::external_body]
pub(crate) fn to_lowercase_str(s: &str) -> (r: String)
    ensures
        r@ == lowercase(s@),
{
    s.to_lowercase()
}

/// A message matches a query when it has text and its lower-case text contains the
/// lower-case query.
pub open spec fn message_matches(m: MessageView, query: Seq<char>) -> bool {
    match text_content_spec(m) {
        Some(t) => contains_seq(lowercase(t), lowercase(query)),
        None => false,
    }
}

/// The messages a query selects from a conversation: all of them for a blank query,
/// else those that match it, in order.
pub open spec fn query_spec(conv: Seq<MessageView>, query: Seq<char>) -> Seq<MessageView> {
    if trim(query).len() == 0 {
        conv
    } else {
        conv.filter(|m: MessageView| message_matches(m, query))
    }
}

/// A message's text contains the query, ignoring case (both lower-cased).
pub open spec fn text_contains_ignoring_case(m: MessageView, query: Seq<char>) -> bool {
    text_content_spec(m) matches Some(t) && contains_seq(lowercase(t), lowercase(query))
}

/// What a query selects from a conversation. A blank query selects the whole
/// conversation. Otherwise every message selected has text containing the query, ignoring
/// case, and is a message of the conversation; every message of the conversation whose text
/// contains the query is selected; and the selected messages are no
/// more than the conversation's.
pub proof fn lemma_query_selects_matching_messages(conv: Seq<MessageView>, query: Seq<char>)
    ensures
        trim(query).len() == 0 ==> query_spec(conv, query) == conv,
        trim(query).len() > 0 ==> forall|k: int|
            0 <= k < query_spec(conv, query).len() ==> text_contains_ignoring_case(
                #[trigger] query_spec(conv, query)[k],
                query,
            ) && conv.contains(query_spec(conv, query)[k]),
        trim(query).len() > 0 ==> forall|i: int|
            0 <= i < conv.len() && text_contains_ignoring_case(#[trigger] conv[i], query)
                ==> query_spec(conv, query).contains(conv[i]),
        query_spec(conv, query).len() <= conv.len(),
{
    let pred = |m: MessageView| message_matches(m, query);
    conv.lemma_filter_len(pred);
    if trim(query).len() > 0 {
        let f = conv.filter(pred);
        assert forall|k: int| 0 <= k < f.len() implies text_contains_ignoring_case(#[trigger] f[k], query)
            && conv.contains(f[k]) by {
            conv.lemma_filter_pred(pred, k);
            assert(f.contains(f[k]));
            conv.lemma_filter_contains_rev(pred, f[k]);
        }
        assert forall|i: int| 0 <= i < conv.len() && text_contains_ignoring_case(#[trigger] conv[i], query)
            implies f.contains(conv[i]) by {
            conv.lemma_filter_contains(pred, i);
        }
    }
}

/// The conversation `id` of a store (empty when unknown).
pub open spec fn conversation_of(m: Map<Seq<char>, Seq<MessageView>>, id: Seq<char>) -> Seq<MessageView> {
    if m.contains_key(id) {
        m[id]
    } else {
        seq![]
    }
}

/// A store of conversations.
pub trait MemoryStore {
    /// Appends a message to conversation `conversation_id`.
    fn add(&mut self, conversation_id: &str, message: Message) -> Result<(), NuroError>;

    /// The messages of a conversation that match `query`; by default, none.
    fn query(&self, conversation_id: &str, query: &str) -> (r: Result<Vec<Message>, NuroError>)
        default_ensures
            r matches Ok(v) && v@.len() == 0,
    {
        Ok(Vec::new())
    }

    /// The whole conversation.
    fn get_conversation(&self, conversation_id: &str) -> Result<Vec<Message>, NuroError>;

    /// Replaces the whole conversation.
    fn save_conversation(&mut self, conversation_id: &str, messages: &Vec<Message>) -> Result<(), NuroError>;
}

/// A memory store held in memory.
#[derive(Debug)]
pub struct InMemoryMemoryStore {
    conversations: Vec<(String, Vec<Message>)>,
}

impl View for InMemoryMemoryStore {
    type V = Map<Seq<char>, Seq<MessageView>>;

    closed spec fn view(&self) -> Map<Seq<char>, Seq<MessageView>> {
        assoc_map(self.conversations@).map_values(|v: Vec<Message>| messages_view(v@))
    }
}

impl InMemoryMemoryStore {
    /// An empty store.
    pub fn new() -> (s: InMemoryMemoryStore)
        ensures
            s@ == Map::<Seq<char>, Seq<MessageView>>::empty(),
    {
        let s = InMemoryMemoryStore { conversations: Vec::new() };
        assert(s@ =~= Map::<Seq<char>, Seq<MessageView>>::empty());
        s
    }

    fn conversation(&self, conversation_id: &str) -> (r: Vec<Message>)
        ensures
            messages_view(r@) == conversation_of(self@, conversation_id@),
    {
        match assoc_get(&self.conversations, conversation_id) {
            Some(v) => duplicate_messages(v),
            None => {
                let r = Vec::new();
                assert(messages_view(r@) =~= seq![]);
                r
            },
        }
    }

    fn put(&mut self, conversation_id: &str, messages: Vec<Message>)
        ensures
            final(self)@ == old(self)@.insert(conversation_id@, messages_view(messages@)),
    {
        let ghost before = assoc_map(self.conversations@);
        let ghost mv = messages_view(messages@);
        assoc_upsert(&mut self.conversations, String::from_str(conversation_id), messages);
        assert(self@ =~= before.map_values(|v: Vec<Message>| messages_view(v@)).insert(
            conversation_id@,
            mv,
        ));
    }
}

impl MemoryStore for InMemoryMemoryStore {
    fn add(&mut self, conversation_id: &str, message: Message) -> (r: Result<(), NuroError>)
        ensures
            r is Ok,
            final(self)@ == old(self)@.insert(
                conversation_id@,
                conversation_of(old(self)@, conversation_id@).push(message@),
            ),
    {
        let mut conv = self.conversation(conversation_id);
        let ghost before = messages_view(conv@);
        let ghost mv = message@;
        conv.push(message);
        assert(messages_view(conv@) =~= before.push(mv));
        self.put(conversation_id, conv);
        Ok(())
    }

    fn query(&self, conversation_id: &str, query: &str) -> (r: Result<Vec<Message>, NuroError>)
        ensures
            r matches Ok(v) && messages_view(v@) == query_spec(
                conversation_of(self@, conversation_id@),
                query@,
            ),
    {
        let conv = self.conversation(conversation_id);
        if is_blank(query) {
            return Ok(conv);
        }
        let q = to_lowercase_str(query);
        let ghost cs = messages_view(conv@);
        let ghost pred = |m: MessageView| message_matches(m, query@);
        let mut out: Vec<Message> = Vec::new();
        let mut i: usize = 0;
        proof {
            reveal(Seq::filter);
            assert(cs.take(0) =~= seq![]);
        }
        while i < conv.len()
            invariant
                i <= conv@.len(),
                cs == messages_view(conv@),
                q@ == lowercase(query@),
                pred == (|m: MessageView| message_matches(m, query@)),
                messages_view(out@) == cs.take(i as int).filter(pred),
            decreases conv@.len() - i,
        {
            let m = &conv[i];
            let keep = match m.text_content() {
                Some(t) => {
                    let lt = to_lowercase_str(t.as_str());
                    contains_str(lt.as_str(), q.as_str())
                },
                None => false,
            };
            let ghost before = messages_view(out@);
            proof {
                reveal(Seq::filter);
                assert(cs.take(i + 1).drop_last() =~= cs.take(i as int));
                assert(cs.take(i + 1).last() == m@);
            }
            if keep {
                out.push(m.duplicate());
                assert(messages_view(out@) =~= before.push(m@));
            }
            i = i + 1;
        }
        assert(cs.take(i as int) =~= cs);
        Ok(out)
    }

    fn get_conversation(&self, conversation_id: &str) -> (r: Result<Vec<Message>, NuroError>)
        ensures
            r matches Ok(v) && messages_view(v@) == conversation_of(self@, conversation_id@),
    {
        Ok(self.conversation(conversation_id))
    }

    fn save_conversation(&mut self, conversation_id: &str, messages: &Vec<Message>) -> (r: Result<(), NuroError>)
        ensures
            r is Ok,
            final(self)@ == old(self)@.insert(conversation_id@, messages_view(messages@)),
    {
        self.put(conversation_id, duplicate_messages(messages));
        Ok(())
    }
}

/// What a store gives back of a write: after saving a conversation, reading it gives the
/// saved messages; after adding a message, the conversation ends with it; other
/// conversations are unchanged.
pub proof fn lemma_memory_read_after_write(
    m: Map<Seq<char>, Seq<MessageView>>,
    id: Seq<char>,
    other: Seq<char>,
    saved: Seq<MessageView>,
    added: MessageView,
)
    requires
        other != id,
    ensures
        conversation_of(m.insert(id, saved), id) == saved,
        conversation_of(m.insert(id, conversation_of(m, id).push(added)), id) == conversation_of(m, id).push(added),
        conversation_of(m.insert(id, saved), other) == conversation_of(m, other),
{
}

} // verus!
