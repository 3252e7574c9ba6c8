//! Replaying the recorded events of a session: the events come back in order, checked
//! for an unsupported schema and for timestamps that go backwards.
use vstd::prelude::*;

use crate::error::{opt_view, Failure, NuroError};
use crate::event::{events_view, Event, EventView};
use crate::runtime::store::EventStore;
use crate::text::{concat3, concat_str, dec, str_eq, u64_to_dec, views};

verus! {

/// How problems are handled: `Strict` fails on the first, `Lenient` collects them as
/// warnings.
#[derive(PartialEq, Eq, Structural, Clone, Copy, Debug)]
pub enum ReplayMode {
    Strict,
    Lenient,
}

/// The events of a replay and the warnings collected on them.
#[derive(Debug)]
pub struct ReplayResult {
    pub events: Vec<Event>,
    pub warnings: Vec<String>,
}

/// The problem of an event of an unsupported schema.
pub open spec fn schema_problem(e: EventView) -> Seq<char> {
    "event "@ + e.event_id + " has unsupported schema_version "@ + e.schema_version
}

/// The problem of an event older than the one before it.
pub open spec fn order_problem(e: EventView, prev: u64) -> Seq<char> {
    "event "@ + e.event_id + " timestamp "@ + dec(e.timestamp_ms as nat) + " is earlier than previous "@
        + dec(prev as nat)
}

/// The problems of event `i`: its schema is not `v1`; its timestamp is earlier than that
/// of the event before it.
pub open spec fn event_problems(es: Seq<EventView>, i: int) -> Seq<Seq<char>> {
    let e = es[i];
    (if e.schema_version != "v1"@ {
        seq![schema_problem(e)]
    } else {
        seq![]
    }) + (if i > 0 && e.timestamp_ms < es[i - 1].timestamp_ms {
        seq![order_problem(e, es[i - 1].timestamp_ms)]
    } else {
        seq![]
    })
}

/// The problems of the first `n` events, in order.
pub open spec fn replay_problems(es: Seq<EventView>, n: int) -> Seq<Seq<char>>
    decreases n,
{
    if n <= 0 || n > es.len() {
        seq![]
    } else {
        replay_problems(es, n - 1) + event_problems(es, n - 1)
    }
}

/// The warnings of a replay, or its error: in strict mode the first problem fails the
/// replay (as invalid input) and a clean replay has no warnings; in lenient mode every
/// problem is a warning.
pub open spec fn replay_spec(es: Seq<EventView>, mode: ReplayMode) -> Result<Seq<Seq<char>>, Failure> {
    let ps = replay_problems(es, es.len() as int);
    match mode {
        ReplayMode::Strict => if ps.len() == 0 {
            Ok(seq![])
        } else {
            Err(Failure::InvalidInput(ps[0]))
        },
        ReplayMode::Lenient => Ok(ps),
    }
}

/// The model of a replay's result: its events and warnings, or its error.
pub open spec fn replay_view(r: Result<ReplayResult, NuroError>) -> Result<(Seq<EventView>, Seq<Seq<char>>), Failure> {
    match r {
        Ok(res) => Ok((events_view(res.events@), views(res.warnings@))),
        Err(e) => Err(e@),
    }
}

/// What a replay answers for what the store listed: the store's error unchanged, or the
/// listed events checked by [`replay_spec`] (kept with their warnings, or the refusal).
pub open spec fn replay_outcome(listed: Result<Vec<Event>, NuroError>, mode: ReplayMode) -> Result<
    (Seq<EventView>, Seq<Seq<char>>),
    Failure,
> {
    match listed {
        Err(e) => Err(e@),
        Ok(es) => match replay_spec(events_view(es@), mode) {
            Ok(ws) => Ok((events_view(es@), ws)),
            Err(f) => Err(f),
        },
    }
}

/// The text of the problem of an event older than the one before it, written out.
pub open spec fn earlier_than_previous(id: Seq<char>, ts: u64, prev: u64) -> Seq<char> {
    "event "@ + id + " timestamp "@ + dec(ts as nat) + " is earlier than previous "@ + dec(prev as nat)
}

/// Every problem of event `i` is among the problems of the first `n` events, `i < n`.
proof fn lemma_problems_include(es: Seq<EventView>, n: int, i: int)
    requires
        0 <= i < n <= es.len(),
    ensures
        forall|k: int|
            0 <= k < event_problems(es, i).len() ==> replay_problems(es, n).contains(
                #[trigger] event_problems(es, i)[k],
            ),
    decreases n,
{
    if n == i + 1 {
        let a = replay_problems(es, i);
        let b = event_problems(es, i);
        assert(replay_problems(es, n) == a + b);
        assert forall|k: int| 0 <= k < b.len() implies replay_problems(es, n).contains(#[trigger] b[k]) by {
            assert((a + b)[a.len() + k] == b[k]);
        }
    } else {
        lemma_problems_include(es, n - 1, i);
        let a = replay_problems(es, n - 1);
        let b = event_problems(es, n - 1);
        assert(replay_problems(es, n) == a + b);
        assert forall|k: int|
            0 <= k < event_problems(es, i).len() implies replay_problems(es, n).contains(
                #[trigger] event_problems(es, i)[k],
            ) by {
            let x = event_problems(es, i)[k];
            let j = choose|j: int| 0 <= j < a.len() && a[j] == x;
            assert((a + b)[j] == x);
        }
    }
}

/// A replay compares each event's timestamp with that of the event just before it: when
/// event `i` is older than event `i - 1`, a lenient replay warns `event <id> timestamp
/// <ts> is earlier than previous <previous ts>` and a strict replay fails.
pub proof fn lemma_replay_reports_backwards_time(es: Seq<EventView>, i: int)
    requires
        0 < i < es.len(),
        es[i].timestamp_ms < es[i - 1].timestamp_ms,
    ensures
        replay_spec(es, ReplayMode::Lenient) matches Ok(ws) && ws.contains(
            earlier_than_previous(es[i].event_id, es[i].timestamp_ms, es[i - 1].timestamp_ms),
        ),
        replay_spec(es, ReplayMode::Strict) is Err,
{
    lemma_problems_include(es, es.len() as int, i);
    let b = event_problems(es, i);
    let m = earlier_than_previous(es[i].event_id, es[i].timestamp_ms, es[i - 1].timestamp_ms);
    assert(b[b.len() - 1] == m);
    assert(replay_problems(es, es.len() as int).contains(b[b.len() - 1]));
}

/// A replay of events of schema `v1` whose timestamps never go backwards finds nothing:
/// a lenient replay has no warning and a strict one succeeds.
pub proof fn lemma_replay_of_ordered_events(es: Seq<EventView>)
    requires
        forall|i: int| 0 <= i < es.len() ==> (#[trigger] es[i]).schema_version == "v1"@,
        forall|i: int| 0 < i < es.len() ==> es[i - 1].timestamp_ms <= (#[trigger] es[i]).timestamp_ms,
    ensures
        replay_spec(es, ReplayMode::Lenient) == Ok::<Seq<Seq<char>>, Failure>(seq![]),
        replay_spec(es, ReplayMode::Strict) == Ok::<Seq<Seq<char>>, Failure>(seq![]),
{
    lemma_no_problems(es, es.len() as int);
}

proof fn lemma_no_problems(es: Seq<EventView>, n: int)
    requires
        0 <= n <= es.len(),
        forall|i: int| 0 <= i < es.len() ==> (#[trigger] es[i]).schema_version == "v1"@,
        forall|i: int| 0 < i < es.len() ==> es[i - 1].timestamp_ms <= (#[trigger] es[i]).timestamp_ms,
    ensures
        replay_problems(es, n) == Seq::<Seq<char>>::empty(),
    decreases n,
{
    if n > 0 {
        lemma_no_problems(es, n - 1);
        assert(es[n - 1].schema_version == "v1"@);
        if n - 1 > 0 {
            assert(es[n - 2].timestamp_ms <= es[n - 1].timestamp_ms);
        }
        assert(event_problems(es, n - 1) =~= Seq::<Seq<char>>::empty());
        assert(replay_problems(es, n) =~= Seq::<Seq<char>>::empty());
    }
}

proof fn lemma_problems_prefix(es: Seq<EventView>, n: int, m: int)
    requires
        0 <= m <= n <= es.len(),
    ensures
        replay_problems(es, n).len() >= replay_problems(es, m).len(),
        forall|k: int|
            0 <= k < replay_problems(es, m).len() ==> replay_problems(es, n)[k] == replay_problems(
                es,
                m,
            )[k],
    decreases n - m,
{
    if n > m {
        lemma_problems_prefix(es, n - 1, m);
    }
}

/// Checks replayed events; see [`replay_spec`]. The events are kept as given.
pub fn validate_events(events: Vec<Event>, mode: ReplayMode) -> (r: Result<ReplayResult, NuroError>)
    ensures
        match replay_spec(events_view(events@), mode) {
            Ok(ws) => replay_view(r) == Ok::<_, Failure>((events_view(events@), ws)),
            Err(f) => replay_view(r) == Err::<(Seq<EventView>, Seq<Seq<char>>), _>(f),
        },
{
    let ghost es = events_view(events@);
    let mut warnings: Vec<String> = Vec::new();
    let mut i: usize = 0;
    while i < events.len()
        invariant
            i <= events@.len(),
            es == events_view(events@),
            es.len() == events@.len(),
            views(warnings@) == replay_problems(es, i as int),
            mode == ReplayMode::Strict ==> replay_problems(es, i as int).len() == 0,
        decreases events@.len() - i,
    {
        let e = &events[i];
        assert(es[i as int] == e@);
        let ghost before = views(warnings@);
        let bad_schema = !str_eq(e.schema_version.as_str(), "v1");
        let mut found: Vec<String> = Vec::new();
        if bad_schema {
            let a = concat3("event ", e.event_id.as_str(), " has unsupported schema_version ");
            let msg = concat_str(a.as_str(), e.schema_version.as_str());
            found.push(msg);
        }
        if i > 0 && e.timestamp_ms < events[i - 1].timestamp_ms {
            assert(es[i - 1] == events@[i - 1]@);
            let prev = events[i - 1].timestamp_ms;
            let ts = u64_to_dec(e.timestamp_ms);
            let ps = u64_to_dec(prev);
            let a = concat3("event ", e.event_id.as_str(), " timestamp ");
            let b = concat3(a.as_str(), ts.as_str(), " is earlier than previous ");
            let msg = concat_str(b.as_str(), ps.as_str());
            found.push(msg);
        }
        proof {
            if i > 0 {
                assert(es[i - 1] == events@[i - 1]@);
            }
            assert(views(found@) =~= event_problems(es, i as int));
        }
        if found.len() > 0 {
            match mode {
                ReplayMode::Strict => {
                    let ghost n = (i + 1) as int;
                    proof {
                        lemma_problems_prefix(es, es.len() as int, n);
                        assert(replay_problems(es, n) =~= event_problems(es, i as int));
                        assert(views(found@)[0] == found@[0]@);
                    }
                    let first = found.remove(0);
                    return Err(NuroError::InvalidInput(first));
                },
                ReplayMode::Lenient => {},
            }
        }
        let mut k: usize = 0;
        while k < found.len()
            invariant
                k <= found@.len(),
                views(warnings@) == before + views(found@).take(k as int),
            decreases found@.len() - k,
        {
            let ghost w = views(warnings@);
            let c = found[k].clone();
            assert(c@ == views(found@)[k as int]);
            warnings.push(c);
            assert(views(warnings@) =~= w.push(c@));
            assert(views(found@).take(k + 1) =~= views(found@).take(k as int).push(c@));
            assert(views(warnings@) =~= before + views(found@).take(k + 1));
            k = k + 1;
        }
        assert(views(found@).take(k as int) =~= views(found@));
        i = i + 1;
    }
    Ok(ReplayResult { events, warnings })
}

/// The events of one run, in order.
pub open spec fn of_run(es: Seq<EventView>, run_id: Seq<char>) -> Seq<EventView> {
    es.filter(|e: EventView| e.run_id == Some(run_id))
}

/// The events that belong to run `run_id`, in order.
pub fn filter_by_run(events: &Vec<Event>, run_id: &str) -> (r: Vec<Event>)
    ensures
        events_view(r@) == of_run(events_view(events@), run_id@),
{
    let ghost es = events_view(events@);
    let ghost pred = |e: EventView| e.run_id == Some(run_id@);
    let mut out: Vec<Event> = Vec::new();
    let mut i: usize = 0;
    proof {
        reveal(Seq::filter);
        assert(es.take(0) =~= seq![]);
    }
    while i < events.len()
        invariant
            i <= events@.len(),
            es == events_view(events@),
            pred == (|e: EventView| e.run_id == Some(run_id@)),
            events_view(out@) == es.take(i as int).filter(pred),
        decreases events@.len() - i,
    {
        let e = &events[i];
        let keep = match &e.run_id {
            Some(r) => str_eq(r.as_str(), run_id),
            None => false,
        };
        let ghost before = events_view(out@);
        proof {
            reveal(Seq::filter);
            assert(es.take(i + 1).drop_last() =~= es.take(i as int));
            assert(es.take(i + 1).last() == e@);
        }
        if keep {
            out.push(e.duplicate());
            assert(events_view(out@) =~= before.push(e@));
        }
        i = i + 1;
    }
    assert(es.take(i as int) =~= es);
    out
}

/// Replays sessions from an event store.
#[derive(Debug)]
pub struct ReplayEngine<S> {
    store: S,
}

impl<S: EventStore> ReplayEngine<S> {
    /// An engine reading from `store`.
    pub fn new(store: S) -> (r: ReplayEngine<S>)
        ensures
            r.store() == store,
    {
        ReplayEngine { store }
    }

    /// The store the engine reads from.
    pub closed spec fn store(&self) -> S {
        self.store
    }

    /// The events of a session, checked: the store is asked for the events of
    /// `session_id`, and its answer is replayed as [`replay_outcome`] says (its error
    /// unchanged, or its events checked by [`replay_spec`]).
    pub fn replay_session(&self, session_id: &str, mode: ReplayMode) -> (r: Result<ReplayResult, NuroError>)
        ensures
            exists|listed: Result<Vec<Event>, NuroError>|
                #[trigger] call_ensures(S::list_by_session, (&self.store(), session_id), listed)
                    && replay_view(r) == replay_outcome(listed, mode),
    {
        let listed = self.store.list_by_session(session_id);
        let ghost lv = listed;
        let r = match listed {
            Ok(events) => validate_events(events, mode),
            Err(e) => Err(e),
        };
        assert(call_ensures(S::list_by_session, (&self.store(), session_id), lv) && replay_view(r)
            == replay_outcome(lv, mode));
        r
    }

    /// The events of one run of a session, checked: the store is asked for the events of
    /// run `run_id` of `session_id`, and its answer is replayed as [`replay_outcome`] says.
    pub fn replay_session_run(&self, session_id: &str, run_id: &str, mode: ReplayMode) -> (r: Result<
        ReplayResult,
        NuroError,
    >)
        ensures
            exists|listed: Result<Vec<Event>, NuroError>|
                #[trigger] call_ensures(S::list_by_session_run, (&self.store(), session_id, run_id), listed)
                    && replay_view(r) == replay_outcome(listed, mode),
    {
        let listed = self.store.list_by_session_run(session_id, run_id);
        let ghost lv = listed;
        let r = match listed {
            Ok(events) => validate_events(events, mode),
            Err(e) => Err(e),
        };
        assert(call_ensures(S::list_by_session_run, (&self.store(), session_id, run_id), lv)
            && replay_view(r) == replay_outcome(lv, mode));
        r
    }
}

/// The name of a mode: `strict` or `lenient`.
pub open spec fn mode_name_spec(mode: ReplayMode) -> Seq<char> {
    match mode {
        ReplayMode::Strict => "strict"@,
        ReplayMode::Lenient => "lenient"@,
    }
}

/// The name of a mode.
pub fn replay_mode_name(mode: ReplayMode) -> (s: &'static str)
    ensures
        s@ == mode_name_spec(mode),
{
    match mode {
        ReplayMode::Strict => "strict",
        ReplayMode::Lenient => "lenient",
    }
}

} // verus!
