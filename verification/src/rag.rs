//! Retrieval: an in-memory document index searched by keyword overlap, the chunking of
//! documents for indexing, and the retriever tool's answers.
//!
//! A hit's score is the Jaccard similarity of the query's and the document's word sets,
//! kept exactly as the pair (words in common, words in either).
use vstd::prelude::*;

use crate::json::{as_str_spec, get_spec, Json, JsonValue};
use crate::server::service::{key_pos, lemma_key_pos};
use crate::memory::{lowercase, to_lowercase_str};
use crate::text::{
    chars_of, chunk_chars, chunks_of, contains_string, split_ws, split_ws_str, str_eq, trim, trim_str,
    views,
};

verus! {

/// A store that keeps nothing and finds nothing.
#[derive(Debug)]
pub struct NoopVectorStore;

/// An embedder that embeds nothing.
#[derive(Debug)]
pub struct NoopEmbedder;

/// A document chunk to index: its id and its metadata (the text is its `text` member).
#[derive(Debug)]
pub struct VectorEntry {
    pub id: String,
    pub metadata: JsonValue,
}

/// The model of an entry.
pub ghost struct EntryView {
    pub id: Seq<char>,
    pub metadata: Json,
}

impl View for VectorEntry {
    type V = EntryView;

    open spec fn view(&self) -> EntryView {
        EntryView { id: self.id@, metadata: self.metadata@ }
    }
}

/// A search hit: the entry's id and metadata, and its score as the fraction
/// `matched / union`.
#[derive(Debug)]
pub struct VectorSearchResult {
    pub id: String,
    pub matched: u64,
    pub union: u64,
    pub metadata: JsonValue,
}

/// The model of a hit.
pub ghost struct HitView {
    pub id: Seq<char>,
    pub matched: nat,
    pub union: nat,
    pub metadata: Json,
}

impl View for VectorSearchResult {
    type V = HitView;

    open spec fn view(&self) -> HitView {
        HitView {
            id: self.id@,
            matched: self.matched as nat,
            union: self.union as nat,
            metadata: self.metadata@,
        }
    }
}

/// The models of entries.
pub open spec fn entries_view(es: Seq<VectorEntry>) -> Seq<EntryView> {
    es.map_values(|e: VectorEntry| e@)
}

/// The models of hits.
pub open spec fn hits_view(hs: Seq<VectorSearchResult>) -> Seq<HitView> {
    hs.map_values(|h: VectorSearchResult| h@)
}

/// The lower-case forms of some words.
pub open spec fn lowered(ws: Seq<Seq<char>>) -> Seq<Seq<char>> {
    ws.map_values(|w: Seq<char>| lowercase(w))
}

/// The set of lower-case words of a text.
pub open spec fn token_set(text: Seq<char>) -> Set<Seq<char>> {
    lowered(split_ws(text)).to_set()
}

/// The text of an entry: its `text` member when it is a string, lower-cased.
pub open spec fn entry_text(metadata: Json) -> Seq<char> {
    lowercase(
        match as_str_spec(get_spec(metadata, "text"@)) {
            Some(t) => t,
            None => seq![],
        },
    )
}

/// The query of a search filter: its `query` member when it is a string, trimmed and
/// lower-cased.
pub open spec fn filter_query(filter: Option<Json>) -> Seq<char> {
    lowercase(
        trim(
            match filter {
                Some(f) => match as_str_spec(get_spec(f, "query"@)) {
                    Some(q) => q,
                    None => seq![],
                },
                None => seq![],
            },
        ),
    )
}

/// The hit of an entry for the query words `q`: none when its text is empty or shares
/// no word with the query; else the numbers of shared words and of words in either.
pub open spec fn hit_of(e: EntryView, q: Set<Seq<char>>) -> Option<HitView> {
    let text = entry_text(e.metadata);
    if text.len() == 0 {
        None
    } else {
        let d = token_set(text);
        let shared = q.intersect(d).len();
        if shared == 0 {
            None
        } else {
            Some(HitView { id: e.id, matched: shared, union: q.union(d).len(), metadata: e.metadata })
        }
    }
}

/// The hits of the first `n` entries, in entry order.
pub open spec fn candidates(es: Seq<EntryView>, q: Set<Seq<char>>, n: int) -> Seq<HitView>
    decreases n,
{
    if n <= 0 || n > es.len() {
        seq![]
    } else {
        candidates(es, q, n - 1) + match hit_of(es[n - 1], q) {
            Some(h) => seq![h],
            None => seq![],
        }
    }
}

/// `a` scores at least as high as `b` (fractions compared exactly).
pub open spec fn score_ge(a: HitView, b: HitView) -> bool {
    a.matched * b.union >= b.matched * a.union
}

/// `out` is `cand` sorted by decreasing score, hits of equal score kept in their order:
/// `sigma` tells where each hit of `out` comes from.
pub open spec fn stable_sorted_by(out: Seq<HitView>, cand: Seq<HitView>, sigma: Seq<int>) -> bool {
    &&& out.len() == cand.len()
    &&& sigma.len() == cand.len()
    &&& forall|x: int| 0 <= x < sigma.len() ==> 0 <= #[trigger] sigma[x] < cand.len()
    &&& forall|x: int, y: int| 0 <= x < y < sigma.len() ==> sigma[x] != sigma[y]
    &&& forall|x: int| 0 <= x < out.len() ==> #[trigger] out[x] == cand[sigma[x]]
    &&& forall|x: int, y: int| 0 <= x < y < out.len() ==> score_ge(out[x], out[y])
    &&& forall|x: int, y: int|
        0 <= x < y < out.len() && score_ge(out[y], out[x]) ==> sigma[x] < sigma[y]
}

/// Scores compare transitively.
pub proof fn lemma_score_ge_transitive(a: HitView, b: HitView, c: HitView)
    requires
        a.union > 0,
        b.union > 0,
        c.union > 0,
        score_ge(a, b),
        score_ge(b, c),
    ensures
        score_ge(a, c),
{
    let (am, au, bm, bu, cm, cu) = (a.matched as int, a.union as int, b.matched as int, b.union as int, c.matched as int, c.union as int);
    assert(am * cu >= cm * au) by (nonlinear_arith)
        requires
            au > 0,
            bu > 0,
            cu > 0,
            am * bu >= bm * au,
            bm * cu >= cm * bu,
            am >= 0,
            bm >= 0,
            cm >= 0,
    {
        assert(am * bu * cu >= bm * au * cu);
        assert(bm * cu * au >= cm * bu * au);
        assert(am * cu * bu >= cm * au * bu);
    }
}

/// The distinct lower-case words of a text.
fn token_list(text: &str) -> (r: Vec<String>)
    ensures
        views(r@).no_duplicates(),
        views(r@).to_set() == token_set(text@),
{
    let words = split_ws_str(text);
    let ghost ws = views(words@);
    let mut out: Vec<String> = Vec::new();
    let mut i: usize = 0;
    proof {
        assert(lowered(ws.take(0)) =~= Seq::<Seq<char>>::empty());
        assert(views(out@) =~= Seq::<Seq<char>>::empty());
        assert(Seq::<Seq<char>>::empty().to_set() =~= Set::<Seq<char>>::empty());
    }
    while i < words.len()
        invariant
            i <= words@.len(),
            ws == views(words@),
            ws == split_ws(text@),
            views(out@).no_duplicates(),
            views(out@).to_set() == lowered(ws.take(i as int)).to_set(),
        decreases words@.len() - i,
    {
        let lw = to_lowercase_str(words[i].as_str());
        let ghost before = views(out@);
        proof {
            assert(lowered(ws.take(i + 1)) =~= lowered(ws.take(i as int)).push(lw@));
            lowered(ws.take(i as int)).lemma_push_to_set_commute(lw@);
        }
        if !contains_string(&out, lw.as_str()) {
            out.push(lw);
            proof {
                assert(views(out@) =~= before.push(lw@));
                before.lemma_push_to_set_commute(lw@);
                assert forall|a: int, b: int|
                    0 <= a < views(out@).len() && 0 <= b < views(out@).len() && a != b implies views(
                    out@,
                )[a] != views(out@)[b] by {
                    if a < before.len() && b < before.len() {
                    } else if a < before.len() {
                        assert(before.contains(before[a]));
                    } else {
                        assert(before.contains(before[b]));
                    }
                }
            }
        } else {
            proof {
                assert(before.to_set().contains(lw@));
                assert(before.to_set().insert(lw@) =~= before.to_set());
            }
        }
        i = i + 1;
    }
    assert(ws.take(i as int) =~= ws);
    out
}

/// The numbers of words two word lists share and have in all.
fn overlap(q: &Vec<String>, d: &Vec<String>) -> (r: (usize, usize))
    requires
        views(q@).no_duplicates(),
        views(d@).no_duplicates(),
    ensures
        r.0 == views(q@).to_set().intersect(views(d@).to_set()).len(),
        r.1 == views(q@).to_set().union(views(d@).to_set()).len(),
{
    let ghost qs = views(q@);
    let ghost ds = views(d@);
    let mut shared: Vec<String> = Vec::new();
    let mut either: Vec<String> = Vec::new();
    let mut k: usize = 0;
    while k < q.len()
        invariant
            k <= q@.len(),
            qs == views(q@),
            ds == views(d@),
            qs.no_duplicates(),
            views(shared@).no_duplicates(),
            views(either@).no_duplicates(),
            views(shared@).to_set() == qs.take(k as int).to_set().intersect(ds.to_set()),
            views(either@).to_set() == qs.take(k as int).to_set(),
        decreases q@.len() - k,
    {
        let w = &q[k];
        let ghost sb = views(shared@);
        let ghost eb = views(either@);
        proof {
            assert(qs.take(k + 1) =~= qs.take(k as int).push(w@));
            qs.take(k as int).lemma_push_to_set_commute(w@);
            assert(qs[k as int] == w@);
            assert(!qs.take(k as int).contains(w@)) by {
                if qs.take(k as int).contains(w@) {
                    let j = choose|j: int| 0 <= j < k && qs.take(k as int)[j] == w@;
                    assert(qs[j] == qs[k as int]);
                }
            }
        }
        if contains_string(d, w.as_str()) {
            shared.push(w.clone());
            proof {
                assert(views(shared@) =~= sb.push(w@));
                sb.lemma_push_to_set_commute(w@);
                assert(!sb.to_set().contains(w@));
                assert(views(shared@).to_set() =~= qs.take(k + 1).to_set().intersect(ds.to_set()));
                lemma_push_fresh_no_dup(sb, w@);
            }
        } else {
            proof {
                assert(views(shared@).to_set() =~= qs.take(k + 1).to_set().intersect(ds.to_set()));
            }
        }
        either.push(w.clone());
        proof {
            assert(views(either@) =~= eb.push(w@));
            eb.lemma_push_to_set_commute(w@);
            assert(!eb.to_set().contains(w@));
            lemma_push_fresh_no_dup(eb, w@);
        }
        k = k + 1;
    }
    assert(qs.take(k as int) =~= qs);
    let mut j: usize = 0;
    while j < d.len()
        invariant
            j <= d@.len(),
            qs == views(q@),
            ds == views(d@),
            ds.no_duplicates(),
            views(either@).no_duplicates(),
            views(either@).to_set() == qs.to_set().union(ds.take(j as int).to_set()),
        decreases d@.len() - j,
    {
        let w = &d[j];
        let ghost eb = views(either@);
        proof {
            assert(ds.take(j + 1) =~= ds.take(j as int).push(w@));
            ds.take(j as int).lemma_push_to_set_commute(w@);
            assert(ds[j as int] == w@);
        }
        if !contains_string(&either, w.as_str()) {
            either.push(w.clone());
            proof {
                assert(views(either@) =~= eb.push(w@));
                eb.lemma_push_to_set_commute(w@);
                lemma_push_fresh_no_dup(eb, w@);
                assert(views(either@).to_set() =~= qs.to_set().union(ds.take(j + 1).to_set()));
            }
        } else {
            proof {
                assert(views(either@).to_set() =~= qs.to_set().union(ds.take(j + 1).to_set()));
            }
        }
        j = j + 1;
    }
    proof {
        assert(ds.take(j as int) =~= ds);
        views(shared@).unique_seq_to_set();
        views(either@).unique_seq_to_set();
    }
    (shared.len(), either.len())
}

proof fn lemma_push_fresh_no_dup(s: Seq<Seq<char>>, x: Seq<char>)
    requires
        s.no_duplicates(),
        !s.to_set().contains(x),
    ensures
        s.push(x).no_duplicates(),
{
    let t = s.push(x);
    assert forall|a: int, b: int| 0 <= a < t.len() && 0 <= b < t.len() && a != b implies t[a] != t[b] by {
        if a < s.len() && b < s.len() {
        } else if a < s.len() {
            assert(s.to_set().contains(s[a]));
        } else {
            assert(s.to_set().contains(s[b]));
        }
    }
}

/// The ids of entries, in order.
pub open spec fn ids_of(es: Seq<EntryView>) -> Seq<Seq<char>> {
    es.map_values(|e: EntryView| e.id)
}

/// Storing one entry: it replaces the entry with its id, or is added after the others.
pub open spec fn upsert_one(es: Seq<EntryView>, e: EntryView) -> Seq<EntryView> {
    let p = key_pos(ids_of(es), e.id);
    if p >= 0 {
        es.update(p, e)
    } else {
        es.push(e)
    }
}

/// Storing entries one after the other.
pub open spec fn upsert_all(es: Seq<EntryView>, news: Seq<EntryView>) -> Seq<EntryView>
    decreases news.len(),
{
    if news.len() == 0 {
        es
    } else {
        upsert_one(upsert_all(es, news.drop_last()), news.last())
    }
}

/// Whether `news[k]` is the last of `news` with its id.
pub open spec fn last_with_id(news: Seq<EntryView>, k: int) -> bool {
    0 <= k < news.len() && forall|j: int| k < j < news.len() ==> (#[trigger] news[j]).id != news[k].id
}

/// Whether some entry of `news` has the id `id`.
pub open spec fn upserts_id(news: Seq<EntryView>, id: Seq<char>) -> bool {
    exists|j: int| 0 <= j < news.len() && (#[trigger] news[j]).id == id
}

/// Storing one entry keeps ids unique, stores the entry, and keeps every entry with
/// another id.
proof fn lemma_upsert_one_facts(es: Seq<EntryView>, e: EntryView)
    requires
        ids_of(es).no_duplicates(),
    ensures
        ids_of(upsert_one(es, e)).no_duplicates(),
        upsert_one(es, e).contains(e),
        forall|q: int| 0 <= q < es.len() && (#[trigger] es[q]).id != e.id ==> upsert_one(es, e).contains(es[q]),
        forall|q: int|
            0 <= q < upsert_one(es, e).len() ==> (#[trigger] upsert_one(es, e)[q]) == e || es.contains(
                upsert_one(es, e)[q],
            ),
{
    let keys = ids_of(es);
    lemma_key_pos(keys, e.id);
    let p = key_pos(keys, e.id);
    let r = upsert_one(es, e);
    if p >= 0 {
        assert(r == es.update(p, e));
        assert(ids_of(r) =~= keys);
        assert(r[p] == e);
        assert forall|q: int| 0 <= q < es.len() && (#[trigger] es[q]).id != e.id implies r.contains(es[q]) by {
            assert(keys[q] == es[q].id);
            assert(q != p);
            assert(r[q] == es[q]);
        }
        assert forall|q: int| 0 <= q < r.len() implies (#[trigger] r[q]) == e || es.contains(r[q]) by {
            if q != p {
                assert(r[q] == es[q]);
            }
        }
    } else {
        assert(r == es.push(e));
        assert(ids_of(r) =~= keys.push(e.id));
        assert(r[es.len() as int] == e);
        assert forall|q: int| 0 <= q < es.len() && (#[trigger] es[q]).id != e.id implies r.contains(es[q]) by {
            assert(r[q] == es[q]);
        }
        assert forall|q: int| 0 <= q < r.len() implies (#[trigger] r[q]) == e || es.contains(r[q]) by {
            if q < es.len() {
                assert(r[q] == es[q]);
            }
        }
        assert forall|a: int, b: int|
            0 <= a < ids_of(r).len() && 0 <= b < ids_of(r).len() && a != b implies ids_of(r)[a]
                != ids_of(r)[b] by {
            if a < keys.len() && b < keys.len() {
            } else if a < keys.len() {
                assert(keys[a] != e.id);
            } else {
                assert(keys[b] != e.id);
            }
        }
    }
}

/// What an upsert stores, when the store's ids are unique: ids stay unique; the entry
/// stored under each upserted id is the last entry upserted with that id, metadata
/// included, and no other entry has that id; an entry whose id was not upserted stays;
/// and every stored entry was either there before or upserted.
pub proof fn lemma_upsert_replaces_by_id(es: Seq<EntryView>, news: Seq<EntryView>)
    requires
        ids_of(es).no_duplicates(),
    ensures
        ids_of(upsert_all(es, news)).no_duplicates(),
        forall|k: int| #[trigger] last_with_id(news, k) ==> upsert_all(es, news).contains(news[k]),
        forall|k: int, q: int|
            #[trigger] last_with_id(news, k) && 0 <= q < upsert_all(es, news).len() && (#[trigger] upsert_all(
                es,
                news,
            )[q]).id == news[k].id ==> upsert_all(es, news)[q] == news[k],
        forall|i: int|
            0 <= i < es.len() && !upserts_id(news, (#[trigger] es[i]).id) ==> upsert_all(es, news).contains(es[i]),
        forall|q: int|
            0 <= q < upsert_all(es, news).len() ==> es.contains(#[trigger] upsert_all(es, news)[q])
                || news.contains(upsert_all(es, news)[q]),
    decreases news.len(),
{
    let r = upsert_all(es, news);
    if news.len() == 0 {
        assert forall|q: int| 0 <= q < r.len() implies es.contains(#[trigger] r[q]) || news.contains(r[q]) by {
            assert(r[q] == es[q]);
        }
    } else {
        let init = news.drop_last();
        let e = news.last();
        let r0 = upsert_all(es, init);
        lemma_upsert_replaces_by_id(es, init);
        lemma_upsert_one_facts(r0, e);
        assert(r == upsert_one(r0, e));
        assert forall|k: int| #[trigger] last_with_id(news, k) implies r.contains(news[k]) by {
            if k < news.len() - 1 {
                assert(news[k] == init[k]);
                assert forall|j: int| k < j < init.len() implies (#[trigger] init[j]).id != init[k].id by {
                    assert(init[j] == news[j]);
                }
                assert(last_with_id(init, k));
                assert(r0.contains(init[k]));
                let q = choose|q: int| 0 <= q < r0.len() && r0[q] == init[k];
                assert(news[news.len() - 1].id != news[k].id);
                assert(r0[q].id != e.id);
            }
        }
        assert forall|k: int, q: int|
            #[trigger] last_with_id(news, k) && 0 <= q < r.len() && (#[trigger] r[q]).id == news[k].id
                implies r[q] == news[k] by {
            assert(r.contains(news[k]));
            let p = choose|p: int| 0 <= p < r.len() && r[p] == news[k];
            assert(ids_of(r)[p] == ids_of(r)[q]);
        }
        assert forall|i: int| 0 <= i < es.len() && !upserts_id(news, (#[trigger] es[i]).id) implies r.contains(
            es[i],
        ) by {
            assert(!upserts_id(init, es[i].id)) by {
                if upserts_id(init, es[i].id) {
                    let j = choose|j: int| 0 <= j < init.len() && (#[trigger] init[j]).id == es[i].id;
                    assert(news[j] == init[j]);
                }
            }
            assert(r0.contains(es[i]));
            let q = choose|q: int| 0 <= q < r0.len() && r0[q] == es[i];
            assert(news[news.len() - 1] == e);
            assert(r0[q].id != e.id);
        }
        assert forall|q: int| 0 <= q < r.len() implies es.contains(#[trigger] r[q]) || news.contains(r[q]) by {
            if r[q] == e {
                assert(news[news.len() - 1] == e);
            } else {
                assert(r0.contains(r[q]));
                let p = choose|p: int| 0 <= p < r0.len() && r0[p] == r[q];
                if !es.contains(r0[p]) {
                    assert(init.contains(r0[p]));
                    let j = choose|j: int| 0 <= j < init.len() && init[j] == r0[p];
                    assert(news[j] == init[j]);
                }
            }
        }
    }
}

/// The hit a search without query gives for an entry: score zero.
pub open spec fn unscored(e: EntryView) -> HitView {
    HitView { id: e.id, matched: 0, union: 1, metadata: e.metadata }
}

/// The first `n` entries, unscored.
pub open spec fn unscored_prefix(es: Seq<EntryView>, n: int) -> Seq<HitView> {
    es.take(n).map_values(|e: EntryView| unscored(e))
}

/// What a search answers: without a query, the first `limit` entries unscored; with
/// one, the first `limit` hits of the entries' candidates sorted by decreasing score,
/// equal scores in entry order.
pub open spec fn search_result(es: Seq<EntryView>, limit: nat, q: Seq<char>, r: Seq<HitView>) -> bool {
    if q.len() == 0 {
        r == unscored_prefix(
            es,
            if limit < es.len() {
                limit as int
            } else {
                es.len() as int
            },
        )
    } else {
        exists|out: Seq<HitView>, sigma: Seq<int>|
            #![trigger stable_sorted_by(out, candidates(es, token_set(q), es.len() as int), sigma)]
            {
                &&& stable_sorted_by(out, candidates(es, token_set(q), es.len() as int), sigma)
                &&& r == out.take(
                    if limit < out.len() {
                        limit as int
                    } else {
                        out.len() as int
                    },
                )
            }
    }
}

/// An index of entries held in memory, by id.
#[derive(Debug)]
pub struct InMemoryVectorStore {
    entries: Vec<VectorEntry>,
}

impl View for InMemoryVectorStore {
    type V = Seq<EntryView>;

    closed spec fn view(&self) -> Seq<EntryView> {
        entries_view(self.entries@)
    }
}

fn score_at_least(a: &VectorSearchResult, b: &VectorSearchResult) -> (r: bool)
    ensures
        r == score_ge(a@, b@),
{
    let (am, au, bm, bu) = (a.matched as u128, a.union as u128, b.matched as u128, b.union as u128);
    assert(am * bu <= u128::MAX && bm * au <= u128::MAX) by (nonlinear_arith)
        requires
            am <= u64::MAX,
            au <= u64::MAX,
            bm <= u64::MAX,
            bu <= u64::MAX,
    ;
    am * bu >= bm * au
}

impl InMemoryVectorStore {
    fn find_entry(&self, id: &str) -> (r: Option<usize>)
        ensures
            match r {
                Some(i) => i as int == key_pos(ids_of(self@), id@) && i < self@.len(),
                None => key_pos(ids_of(self@), id@) == -1,
            },
    {
        let ghost keys = ids_of(self@);
        proof {
            lemma_key_pos(keys, id@);
        }
        let mut n = self.entries.len();
        while n > 0
            invariant
                n <= self.entries@.len(),
                keys == ids_of(self@),
                keys.len() == self.entries@.len(),
                forall|k: int| 0 <= k < keys.len() ==> #[trigger] keys[k] == self.entries@[k].id@,
                forall|j: int| n <= j < keys.len() ==> keys[j] != id@,
                forall|i: int|
                    0 <= i < keys.len() && keys[i] == id@ && (forall|j: int| i < j < keys.len() ==> keys[j]
                        != id@) ==> key_pos(keys, id@) == i,
                -1 <= key_pos(keys, id@) < keys.len(),
            decreases n,
        {
            if str_eq(self.entries[n - 1].id.as_str(), id) {
                assert(keys[n - 1] == id@);
                return Some(n - 1);
            }
            n = n - 1;
        }
        None
    }
}

/// Inserting a hit before the first one that scores lower keeps a stable sort.
proof fn lemma_insert_sorted(out: Seq<HitView>, cand: Seq<HitView>, sigma: Seq<int>, h: HitView, p: int)
    requires
        stable_sorted_by(out, cand, sigma),
        forall|x: int| 0 <= x < out.len() ==> (#[trigger] out[x]).union > 0,
        h.union > 0,
        0 <= p <= out.len(),
        forall|x: int| 0 <= x < p ==> score_ge(#[trigger] out[x], h),
        p < out.len() ==> !score_ge(out[p], h),
    ensures
        stable_sorted_by(out.insert(p, h), cand.push(h), sigma.insert(p, cand.len() as int)),
        forall|x: int| 0 <= x < out.insert(p, h).len() ==> (#[trigger] out.insert(p, h)[x]).union > 0,
{
    let o2 = out.insert(p, h);
    let c2 = cand.push(h);
    let s2 = sigma.insert(p, cand.len() as int);
    assert forall|y: int| p <= y < out.len() implies !score_ge(#[trigger] out[y], h) by {
        if score_ge(out[y], h) && y > p {
            lemma_score_ge_transitive(out[p], out[y], h);
        }
    }
    assert forall|x: int| 0 <= x < o2.len() implies #[trigger] o2[x] == c2[s2[x]] by {
        if x < p {
            assert(o2[x] == out[x]);
            assert(s2[x] == sigma[x]);
        } else if x > p {
            assert(o2[x] == out[x - 1]);
            assert(s2[x] == sigma[x - 1]);
        }
    }
    assert forall|x: int, y: int| 0 <= x < y < o2.len() implies score_ge(o2[x], o2[y]) by {
        if y < p {
        } else if y == p {
            assert(o2[x] == out[x]);
        } else if x < p {
            assert(o2[x] == out[x]);
            assert(o2[y] == out[y - 1]);
        } else if x == p {
            assert(o2[y] == out[y - 1]);
            assert(!score_ge(out[y - 1], h));
        } else {
            assert(o2[x] == out[x - 1]);
            assert(o2[y] == out[y - 1]);
        }
    }
    assert forall|x: int, y: int|
        0 <= x < y < o2.len() && score_ge(o2[y], o2[x]) implies s2[x] < s2[y] by {
        if y < p {
        } else if y == p {
            assert(s2[x] == sigma[x]);
        } else if x < p {
            assert(o2[x] == out[x]);
            assert(o2[y] == out[y - 1]);
            assert(s2[x] == sigma[x]);
            assert(s2[y] == sigma[y - 1]);
        } else if x == p {
            assert(o2[y] == out[y - 1]);
            assert(!score_ge(out[y - 1], h));
        } else {
            assert(s2[x] == sigma[x - 1]);
            assert(s2[y] == sigma[y - 1]);
        }
    }
    assert forall|x: int, y: int| 0 <= x < y < s2.len() implies s2[x] != s2[y] by {
        if y < p {
        } else if y == p {
        } else if x < p {
            assert(s2[y] == sigma[y - 1]);
        } else if x == p {
            assert(s2[y] == sigma[y - 1]);
        } else {
            assert(s2[x] == sigma[x - 1]);
            assert(s2[y] == sigma[y - 1]);
        }
    }
    assert forall|x: int| 0 <= x < s2.len() implies 0 <= #[trigger] s2[x] < c2.len() by {
        if x < p {
            assert(s2[x] == sigma[x]);
        } else if x > p {
            assert(s2[x] == sigma[x - 1]);
        }
    }
    assert forall|x: int| 0 <= x < o2.len() implies (#[trigger] o2[x]).union > 0 by {
        if x < p {
            assert(o2[x] == out[x]);
        } else if x > p {
            assert(o2[x] == out[x - 1]);
        }
    }
}

impl InMemoryVectorStore {
    /// An empty index.
    pub fn new() -> (s: InMemoryVectorStore)
        ensures
            s@ == Seq::<EntryView>::empty(),
    {
        let s = InMemoryVectorStore { entries: Vec::new() };
        assert(s@ =~= Seq::<EntryView>::empty());
        s
    }

    /// Stores the entries, each replacing the entry with its id; see [`upsert_all`].
    pub fn upsert(&mut self, entries: Vec<VectorEntry>)
        ensures
            final(self)@ == upsert_all(old(self)@, entries_view(entries@)),
            ids_of(old(self)@).no_duplicates() ==> ids_of(final(self)@).no_duplicates(),
    {
        let ghost news = entries_view(entries@);
        let ghost start = self@;
        let mut i: usize = 0;
        assert(news.take(0) =~= Seq::<EntryView>::empty());
        while i < entries.len()
            invariant
                i <= entries@.len(),
                news == entries_view(entries@),
                self@ == upsert_all(start, news.take(i as int)),
                ids_of(start).no_duplicates() ==> ids_of(self@).no_duplicates(),
            decreases entries@.len() - i,
        {
            let e = &entries[i];
            let ghost before = self@;
            let ghost keys = ids_of(before);
            proof {
                lemma_key_pos(keys, e.id@);
                assert(news.take(i + 1).drop_last() =~= news.take(i as int));
                assert(news.take(i + 1).last() == e@);
            }
            let copy = VectorEntry { id: e.id.clone(), metadata: e.metadata.duplicate() };
            match self.find_entry(e.id.as_str()) {
                Some(q) => {
                    self.entries.set(q, copy);
                    proof {
                        assert(self@ =~= before.update(q as int, e@));
                        assert(ids_of(self@) =~= keys);
                    }
                },
                None => {
                    self.entries.push(copy);
                    proof {
                        assert(self@ =~= before.push(e@));
                        assert(ids_of(self@) =~= keys.push(e.id@));
                        if keys.no_duplicates() {
                            assert forall|a: int, b: int|
                                0 <= a < ids_of(self@).len() && 0 <= b < ids_of(self@).len() && a
                                    != b implies ids_of(self@)[a] != ids_of(self@)[b] by {
                                if a < keys.len() && b < keys.len() {
                                } else if a < keys.len() {
                                    assert(keys[a] != e.id@);
                                } else {
                                    assert(keys[b] != e.id@);
                                }
                            }
                        }
                    }
                },
            }
            i = i + 1;
        }
        assert(news.take(i as int) =~= news);
    }

    /// Removes the entries with the given ids.
    pub fn delete(&mut self, ids: &Vec<String>)
        ensures
            final(self)@ == old(self)@.filter(|e: EntryView| !views(ids@).contains(e.id)),
    {
        let ghost start = self@;
        let ghost pred = |e: EntryView| !views(ids@).contains(e.id);
        let mut kept: Vec<VectorEntry> = Vec::new();
        let mut i: usize = 0;
        proof {
            reveal(Seq::filter);
            assert(start.take(0) =~= Seq::<EntryView>::empty());
            assert(entries_view(kept@) =~= Seq::<EntryView>::empty());
        }
        while i < self.entries.len()
            invariant
                i <= self.entries@.len(),
                self@ == start,
                pred == (|e: EntryView| !views(ids@).contains(e.id)),
                entries_view(kept@) == start.take(i as int).filter(pred),
            decreases self.entries@.len() - i,
        {
            let e = &self.entries[i];
            let ghost before = entries_view(kept@);
            proof {
                reveal(Seq::filter);
                assert(start.take(i + 1).drop_last() =~= start.take(i as int));
                assert(start.take(i + 1).last() == e@);
            }
            if !contains_string(ids, e.id.as_str()) {
                kept.push(VectorEntry { id: e.id.clone(), metadata: e.metadata.duplicate() });
                assert(entries_view(kept@) =~= before.push(e@));
            }
            i = i + 1;
        }
        assert(start.take(i as int) =~= start);
        self.entries = kept;
    }

    /// Searches the index. Without a query (see [`filter_query`]) the first `limit`
    /// entries come back unscored; with one, the entries that share words with it, best
    /// score first (entries of equal score in index order), at most `limit` of them.
    pub fn search(&self, limit: usize, filter: Option<&JsonValue>) -> (r: Vec<VectorSearchResult>)
        ensures
            search_result(
                self@,
                limit as nat,
                filter_query(
                    match filter {
                        Some(f) => Some(f@),
                        None => None,
                    },
                ),
                hits_view(r@),
            ),
    {
        let ghost fv = match filter {
            Some(f) => Some(f@),
            None => None,
        };
        let raw: &str = match filter {
            Some(f) => match f.get("query") {
                Some(v) => match v.as_str() {
                    Some(q) => q,
                    None => "",
                },
                None => "",
            },
            None => "",
        };
        proof {
            reveal_strlit("");
            assert(raw@ == match fv {
                Some(f) => match as_str_spec(get_spec(f, "query"@)) {
                    Some(q) => q,
                    None => seq![],
                },
                None => seq![],
            });
        }
        let trimmed = trim_str(raw);
        let query = to_lowercase_str(trimmed.as_str());
        let ghost es = self@;
        if query.unicode_len() == 0 {
            let n = if limit < self.entries.len() {
                limit
            } else {
                self.entries.len()
            };
            let mut out: Vec<VectorSearchResult> = Vec::new();
            let mut i: usize = 0;
            while i < n
                invariant
                    i <= n,
                    n <= self.entries@.len(),
                    es == self@,
                    hits_view(out@) == unscored_prefix(es, i as int),
                decreases n - i,
            {
                let e = &self.entries[i];
                let ghost before = hits_view(out@);
                let h = VectorSearchResult { id: e.id.clone(), matched: 0, union: 1, metadata: e.metadata.duplicate() };
                assert(es[i as int] == e@);
                assert(h@ == unscored(e@));
                out.push(h);
                assert(hits_view(out@) =~= before.push(unscored(e@)));
                assert(es.take(i + 1) =~= es.take(i as int).push(e@));
                assert(unscored_prefix(es, i + 1) =~= unscored_prefix(es, i as int).push(unscored(e@)));
                assert(hits_view(out@) =~= unscored_prefix(es, i + 1));
                i = i + 1;
            }
            proof {
                assert(filter_query(fv) == query@);
                assert(search_result(self@, limit as nat, query@, hits_view(out@)));
            }
            return out;
        }
        let qt = token_list(query.as_str());
        let ghost qset = token_set(query@);
        let mut sorted: Vec<VectorSearchResult> = Vec::new();
        let ghost mut sigma: Seq<int> = Seq::empty();
        let mut i: usize = 0;
        proof {
            assert(hits_view(sorted@) =~= Seq::<HitView>::empty());
            assert(candidates(es, qset, 0) =~= Seq::<HitView>::empty());
        }
        while i < self.entries.len()
            invariant
                i <= self.entries@.len(),
                es == self@,
                es.len() == self.entries@.len(),
                views(qt@).no_duplicates(),
                views(qt@).to_set() == qset,
                stable_sorted_by(hits_view(sorted@), candidates(es, qset, i as int), sigma),
                forall|x: int| 0 <= x < hits_view(sorted@).len() ==> (#[trigger] hits_view(sorted@)[x]).union > 0,
            decreases self.entries@.len() - i,
        {
            let e = &self.entries[i];
            assert(es[i as int] == e@);
            let raw_text: &str = match e.metadata.get("text") {
                Some(v) => match v.as_str() {
                    Some(t) => t,
                    None => "",
                },
                None => "",
            };
            proof {
                reveal_strlit("");
                assert(raw_text@ == match as_str_spec(get_spec(e@.metadata, "text"@)) {
                    Some(t) => t,
                    None => seq![],
                });
            }
            let text = to_lowercase_str(raw_text);
            assert(text@ == entry_text(e@.metadata));
            if text.unicode_len() == 0 {
                assert(candidates(es, qset, i + 1) =~= candidates(es, qset, i as int));
                i = i + 1;
                continue;
            }
            let dt = token_list(text.as_str());
            let (shared, either) = overlap(&qt, &dt);
            if shared == 0 {
                assert(candidates(es, qset, i + 1) =~= candidates(es, qset, i as int));
                i = i + 1;
                continue;
            }
            proof {
                vstd::set_lib::lemma_len_subset(qset.intersect(token_set(text@)), qset.union(token_set(text@)));
            }
            let hit = VectorSearchResult {
                id: e.id.clone(),
                matched: shared as u64,
                union: either as u64,
                metadata: e.metadata.duplicate(),
            };
            let ghost hv = hit@;
            assert(hit_of(e@, qset) == Some(hv));
            assert(candidates(es, qset, i + 1) =~= candidates(es, qset, i as int).push(hv));
            let mut p: usize = 0;
            while p < sorted.len() && score_at_least(&sorted[p], &hit)
                invariant
                    p <= sorted@.len(),
                    hv == hit@,
                    forall|x: int| 0 <= x < p ==> score_ge(#[trigger] hits_view(sorted@)[x], hv),
                decreases sorted@.len() - p,
            {
                assert(hits_view(sorted@)[p as int] == sorted@[p as int]@);
                p = p + 1;
            }
            proof {
                if p < sorted@.len() {
                    assert(hits_view(sorted@)[p as int] == sorted@[p as int]@);
                }
            }
            let ghost before = hits_view(sorted@);
            proof {
                lemma_insert_sorted(before, candidates(es, qset, i as int), sigma, hv, p as int);
                sigma = sigma.insert(p as int, candidates(es, qset, i as int).len() as int);
            }
            sorted.insert(p, hit);
            assert(hits_view(sorted@) =~= before.insert(p as int, hv));
            i = i + 1;
        }
        let ghost full = hits_view(sorted@);
        sorted.truncate(limit);
        proof {
            if limit < full.len() {
                assert(hits_view(sorted@) =~= full.take(limit as int));
            } else {
                assert(hits_view(sorted@) =~= full.take(full.len() as int));
            }
            let q = filter_query(fv);
            assert(q == query@);
            assert(stable_sorted_by(full, candidates(self@, token_set(q), self@.len() as int), sigma));
            assert(q.len() != 0);
            assert(hits_view(sorted@) == full.take(
                if limit < full.len() {
                    limit as int
                } else {
                    full.len() as int
                },
            ));
            assert(search_result(self@, limit as nat, q, hits_view(sorted@)));
        }
        sorted
    }
}

/// The chunks a document is indexed in: none for an empty text or a chunk size of zero;
/// else pieces of `chunk_size` characters (the last one possibly shorter).
pub open spec fn chunk_text_spec(text: Seq<char>, chunk_size: nat) -> Seq<Seq<char>> {
    if text.len() == 0 || chunk_size == 0 {
        seq![]
    } else {
        chunks_of(text, chunk_size)
    }
}

/// The chunks a document is indexed in; see [`chunk_text_spec`].
pub fn chunk_text(text: &str, chunk_size: usize) -> (r: Vec<String>)
    ensures
        views(r@) == chunk_text_spec(text@, chunk_size as nat),
{
    let chars = chars_of(text);
    if chars.len() == 0 || chunk_size == 0 {
        let r = Vec::new();
        assert(views(r@) =~= Seq::<Seq<char>>::empty());
        return r;
    }
    chunk_chars(&chars, chunk_size)
}

/// The metadata of chunk `idx` of a document: `{"chunk_index": idx, "source": ...,
/// "text": ...}`.
pub open spec fn chunk_metadata(source: Seq<char>, idx: nat, text: Seq<char>) -> Json {
    Json::Object(
        seq![
            ("chunk_index"@, Json::Number(crate::text::dec(idx))),
            ("source"@, Json::String(source)),
            ("text"@, Json::String(text)),
        ],
    )
}

/// The entry of chunk `idx` of a document: id `<source>#<idx>`.
pub open spec fn chunk_entry(source: Seq<char>, idx: nat, text: Seq<char>) -> EntryView {
    EntryView { id: source + "#"@ + crate::text::dec(idx), metadata: chunk_metadata(source, idx, text) }
}

/// The entries of a document read from `source`, one per chunk, in order.
pub fn index_entries(source: &str, content: &str, chunk_size: usize) -> (r: Vec<VectorEntry>)
    ensures
        entries_view(r@).len() == chunk_text_spec(content@, chunk_size as nat).len(),
        forall|k: int|
            0 <= k < entries_view(r@).len() ==> #[trigger] entries_view(r@)[k] == chunk_entry(
                source@,
                k as nat,
                chunk_text_spec(content@, chunk_size as nat)[k],
            ),
{
    let chunks = chunk_text(content, chunk_size);
    let ghost cs = views(chunks@);
    let mut out: Vec<VectorEntry> = Vec::new();
    let mut i: usize = 0;
    while i < chunks.len()
        invariant
            i <= chunks@.len(),
            cs == views(chunks@),
            out@.len() == i,
            forall|k: int| 0 <= k < i ==> #[trigger] out@[k]@ == chunk_entry(source@, k as nat, cs[k]),
        decreases chunks@.len() - i,
    {
        let digits = crate::text::u64_to_dec(i as u64);
        let a = crate::text::concat3(source, "#", digits.as_str());
        let mut members: Vec<(String, JsonValue)> = Vec::new();
        members.push((String::from_str("chunk_index"), JsonValue::from_u64(i as u64)));
        members.push((String::from_str("source"), JsonValue::from_str(source)));
        members.push((String::from_str("text"), JsonValue::String(chunks[i].clone())));
        let metadata = JsonValue::Object(members);
        proof {
            crate::json::lemma_members_view(members@, 3);
            assert(cs[i as int] == chunks@[i as int]@);
            assert(crate::json::members_view(members@, 3) =~= seq![
                ("chunk_index"@, Json::Number(crate::text::dec(i as nat))),
                ("source"@, Json::String(source@)),
                ("text"@, Json::String(cs[i as int])),
            ]);
        }
        out.push(VectorEntry { id: a, metadata });
        i = i + 1;
    }
    proof {
        assert forall|k: int| 0 <= k < entries_view(out@).len() implies #[trigger] entries_view(out@)[k]
            == chunk_entry(source@, k as nat, chunk_text_spec(content@, chunk_size as nat)[k]) by {
            assert(entries_view(out@)[k] == out@[k]@);
        }
    }
    out
}

/// The retriever tool's name: `retriever`.
pub fn retriever_name() -> (s: &'static str)
    ensures
        s@ == "retriever"@,
{
    "retriever"
}

/// The retriever tool's description.
pub fn retriever_description() -> (s: &'static str)
    ensures
        s@ == "Retrieve documents relevant to a natural language query using a simple keyword-based matcher over an in-memory index."@,
{
    "Retrieve documents relevant to a natural language query using a simple keyword-based matcher over an in-memory index."
}

/// The number of hits a retriever asks for: the given limit, at least one.
pub fn retriever_limit(top_k: usize) -> (n: usize)
    ensures
        n == if top_k == 0 {
            1
        } else {
            top_k
        },
{
    if top_k == 0 {
        1
    } else {
        top_k
    }
}

/// A hit as the retriever reports it: the score is given as the text of a JSON number.
#[derive(Debug)]
pub struct ReportedHit {
    pub id: String,
    pub score: String,
    pub metadata: JsonValue,
}

/// The JSON of a reported hit: `{"id": ..., "metadata": ..., "score": ...}`.
pub open spec fn reported_json(h: ReportedHit) -> Json {
    Json::Object(
        seq![
            ("id"@, Json::String(h.id@)),
            ("metadata"@, h.metadata@),
            ("score"@, Json::Number(h.score@)),
        ],
    )
}

/// The JSON of reported hits.
pub open spec fn reported_jsons(hs: Seq<ReportedHit>) -> Seq<Json> {
    hs.map_values(|h: ReportedHit| reported_json(h))
}

/// The retriever's answer without an index: `{"query": ..., "result": "no documents indexed"}`.
pub fn retriever_unindexed(query: &str) -> (j: JsonValue)
    ensures
        j@ == Json::Object(
            seq![("query"@, Json::String(query@)), ("result"@, Json::String("no documents indexed"@))],
        ),
{
    let mut members: Vec<(String, JsonValue)> = Vec::new();
    members.push((String::from_str("query"), JsonValue::from_str(query)));
    members.push((String::from_str("result"), JsonValue::from_str("no documents indexed")));
    let j = JsonValue::Object(members);
    proof {
        crate::json::lemma_members_view(members@, 2);
        assert(crate::json::members_view(members@, 2) =~= seq![
            ("query"@, Json::String(query@)),
            ("result"@, Json::String("no documents indexed"@)),
        ]);
    }
    j
}

/// The retriever's answer for the hits found: `{"hits": [], "query": ..., "result":
/// "no documents found"}` when there are none, else `{"hits": [...], "query": ...,
/// "top_k": ...}`.
pub open spec fn retriever_answer_spec(query: Seq<char>, hits: Seq<ReportedHit>, top_k: nat) -> Json {
    if hits.len() == 0 {
        Json::Object(
            seq![
                ("hits"@, Json::Array(seq![])),
                ("query"@, Json::String(query)),
                ("result"@, Json::String("no documents found"@)),
            ],
        )
    } else {
        Json::Object(
            seq![
                ("hits"@, Json::Array(reported_jsons(hits))),
                ("query"@, Json::String(query)),
                ("top_k"@, Json::Number(crate::text::dec(top_k))),
            ],
        )
    }
}

/// The retriever's answer for the hits found; see [`retriever_answer_spec`].
pub fn retriever_answer(query: &str, hits: &Vec<ReportedHit>, top_k: usize) -> (j: JsonValue)
    ensures
        j@ == retriever_answer_spec(query@, hits@, top_k as nat),
{
    let mut items: Vec<JsonValue> = Vec::new();
    let mut i: usize = 0;
    while i < hits.len()
        invariant
            i <= hits@.len(),
            items@.len() == i,
            forall|k: int| 0 <= k < i ==> #[trigger] items@[k]@ == reported_json(hits@[k]),
        decreases hits@.len() - i,
    {
        let h = &hits[i];
        let mut members: Vec<(String, JsonValue)> = Vec::new();
        members.push((String::from_str("id"), JsonValue::String(h.id.clone())));
        members.push((String::from_str("metadata"), h.metadata.duplicate()));
        members.push((String::from_str("score"), JsonValue::Number(h.score.clone())));
        let item = JsonValue::Object(members);
        proof {
            crate::json::lemma_members_view(members@, 3);
            assert(crate::json::members_view(members@, 3) =~= seq![
                ("id"@, Json::String(h.id@)),
                ("metadata"@, h.metadata@),
                ("score"@, Json::Number(h.score@)),
            ]);
        }
        items.push(item);
        i = i + 1;
    }
    let arr = JsonValue::Array(items);
    proof {
        crate::json::lemma_items_view(items@, items@.len() as int);
        assert(crate::json::items_view(items@, items@.len() as int) =~= reported_jsons(hits@));
    }
    let ghost av = arr@;
    let mut members: Vec<(String, JsonValue)> = Vec::new();
    members.push((String::from_str("hits"), arr));
    members.push((String::from_str("query"), JsonValue::from_str(query)));
    if hits.len() == 0 {
        members.push((String::from_str("result"), JsonValue::from_str("no documents found")));
    } else {
        members.push((String::from_str("top_k"), JsonValue::from_u64(top_k as u64)));
    }
    let j = JsonValue::Object(members);
    proof {
        crate::json::lemma_members_view(members@, 3);
        if hits@.len() == 0 {
            assert(reported_jsons(hits@) =~= Seq::<Json>::empty());
            assert(crate::json::members_view(members@, 3) =~= seq![
                ("hits"@, Json::Array(seq![])),
                ("query"@, Json::String(query@)),
                ("result"@, Json::String("no documents found"@)),
            ]);
        } else {
            assert(crate::json::members_view(members@, 3) =~= seq![
                ("hits"@, av),
                ("query"@, Json::String(query@)),
                ("top_k"@, Json::Number(crate::text::dec(top_k as nat))),
            ]);
        }
    }
    j
}

} // verus!
