//! The keyed store that fetch outcomes are gathered into before composition.

use vstd::prelude::*;
use crate::types::{is_cover, AlbumInfo};

verus! {

/// What was fetched for one album: its number of tracks and the raw bytes of
/// its cover art, empty when it has none.
#[derive(Clone, Debug)]
pub struct FetchResult {
    pub track_count: usize,
    pub image: Vec<u8>,
}

impl View for FetchResult {
    type V = (usize, Seq<u8>);

    open spec fn view(&self) -> (usize, Seq<u8>) {
        (self.track_count, self.image@)
    }
}

impl FetchResult {
    /// The result that stands for an album with nothing fetched.
    pub fn empty() -> (r: FetchResult)
        ensures
            r@ == (0usize, Seq::<u8>::empty()),
    {
        FetchResult { track_count: 0, image: Vec::new() }
    }
}

/// The result of an album from its details and the bytes fetched from its
/// cover URL. An album with no cover descriptor has an empty payload whatever
/// `fetched` holds.
pub fn fetch_result(info: &AlbumInfo, fetched: Vec<u8>) -> (r: FetchResult)
    ensures
        r.track_count == info.tracks.track@.len(),
        (exists|j: int| 0 <= j < info.images@.len() && is_cover(info.images@[j])) ==> r.image@ == fetched@,
        (forall|j: int| 0 <= j < info.images@.len() ==> !is_cover(info.images@[j])) ==> r.image@.len() == 0,
{
    let track_count = info.track_count();
    match info.cover_index() {
        Some(_) => FetchResult { track_count, image: fetched },
        None => FetchResult { track_count, image: Vec::new() },
    }
}

/// Why one album's fetch failed.
#[derive(Clone, Debug)]
pub struct FetchError {
    pub message: String,
}

/// The outcome of one album's fetch: its name and result, or the failure.
pub type FetchOutcome = Result<(String, FetchResult), FetchError>;

/// The map that a sequence of entries stands for; a later entry wins.
pub open spec fn entries_map(s: Seq<(String, FetchResult)>) -> Map<Seq<char>, (usize, Seq<u8>)>
    decreases s.len(),
{
    if s.len() == 0 {
        Map::empty()
    } else {
        let last = s.last();
        entries_map(s.drop_last()).insert(last.0@, last.1@)
    }
}

pub open spec fn unique_keys(s: Seq<(String, FetchResult)>) -> bool {
    forall|i: int, j: int| 0 <= i < s.len() && 0 <= j < s.len() && i != j ==> s[i].0@ != s[j].0@
}

proof fn lemma_entries_dom(s: Seq<(String, FetchResult)>, k: Seq<char>)
    ensures
        entries_map(s).contains_key(k) <==> exists|j: int| 0 <= j < s.len() && s[j].0@ == k,
    decreases s.len(),
{
    if s.len() > 0 {
        lemma_entries_dom(s.drop_last(), k);
        if entries_map(s.drop_last()).contains_key(k) {
            let j = choose|j: int| 0 <= j < s.drop_last().len() && s.drop_last()[j].0@ == k;
            assert(s[j].0@ == k);
        }
        if exists|j: int| 0 <= j < s.len() && s[j].0@ == k {
            let j = choose|j: int| 0 <= j < s.len() && s[j].0@ == k;
            if j < s.len() - 1 {
                assert(s.drop_last()[j].0@ == k);
            }
        }
    }
}

proof fn lemma_entries_get(s: Seq<(String, FetchResult)>, j: int)
    requires
        unique_keys(s),
        0 <= j < s.len(),
    ensures
        entries_map(s).contains_key(s[j].0@),
        entries_map(s)[s[j].0@] == s[j].1@,
    decreases s.len(),
{
    if j < s.len() - 1 {
        assert(unique_keys(s.drop_last()));
        lemma_entries_get(s.drop_last(), j);
        assert(s.drop_last()[j] == s[j]);
        assert(s.last().0@ != s[j].0@);
    }
}

proof fn lemma_entries_update(s: Seq<(String, FetchResult)>, j: int, e: (String, FetchResult))
    requires
        unique_keys(s),
        0 <= j < s.len(),
        e.0@ == s[j].0@,
    ensures
        entries_map(s.update(j, e)) =~= entries_map(s).insert(e.0@, e.1@),
    decreases s.len(),
{
    let t = s.update(j, e);
    if j == s.len() - 1 {
        assert(t.drop_last() =~= s.drop_last());
    } else {
        assert(t.drop_last() =~= s.drop_last().update(j, e));
        assert(unique_keys(s.drop_last()));
        lemma_entries_update(s.drop_last(), j, e);
        assert(s.last().0@ != s[j].0@);
        assert(t.last() == s.last());
    }
}

/// Fetch results keyed by album name. Each name is held at most once.
pub struct ResultAggregator {
    entries: Vec<(String, FetchResult)>,
}

impl View for ResultAggregator {
    type V = Map<Seq<char>, (usize, Seq<u8>)>;

    closed spec fn view(&self) -> Map<Seq<char>, (usize, Seq<u8>)> {
        entries_map(self.entries@)
    }
}

impl ResultAggregator {
    pub closed spec fn wf(&self) -> bool {
        unique_keys(self.entries@)
    }

    pub fn new() -> (r: ResultAggregator)
        ensures
            r.wf(),
            r@ == Map::<Seq<char>, (usize, Seq<u8>)>::empty(),
    {
        ResultAggregator { entries: Vec::new() }
    }

    fn position(&self, name: &String) -> (r: Option<usize>)
        requires
            self.wf(),
        ensures
            r is None ==> !self@.contains_key(name@),
            r is Some ==> r->Some_0 < self.entries@.len() && self.entries@[r->Some_0 as int].0@
                == name@,
    {
        let mut i: usize = 0;
        while i < self.entries.len()
            invariant
                i <= self.entries@.len(),
                forall|j: int| 0 <= j < i ==> self.entries@[j].0@ != name@,
            decreases self.entries@.len() - i,
        {
            if self.entries[i].0 == *name {
                return Some(i);
            }
            i = i + 1;
        }
        proof {
            lemma_entries_dom(self.entries@, name@);
        }
        None
    }

    /// Records `result` under `name`, replacing what was there.
    pub fn insert(&mut self, name: String, result: FetchResult)
        requires
            old(self).wf(),
        ensures
            final(self).wf(),
            final(self)@ == old(self)@.insert(name@, result@),
    {
        match self.position(&name) {
            Some(j) => {
                proof {
                    lemma_entries_update(self.entries@, j as int, (name, result));
                }
                self.entries.set(j, (name, result));
            },
            None => {
                proof {
                    lemma_entries_dom(self.entries@, name@);
                }
                let ghost before = self.entries@;
                self.entries.push((name, result));
                proof {
                    assert(self.entries@.drop_last() =~= before);
                }
            },
        }
    }

    /// The result recorded under `name`, if any.
    pub fn get(&self, name: &String) -> (r: Option<&FetchResult>)
        requires
            self.wf(),
        ensures
            r is Some <==> self@.contains_key(name@),
            r is Some ==> r->Some_0@ == self@[name@],
    {
        match self.position(name) {
            Some(j) => {
                proof {
                    lemma_entries_get(self.entries@, j as int);
                }
                Some(&self.entries[j].1)
            },
            None => None,
        }
    }

    /// Number of albums recorded.
    pub fn len(&self) -> (r: usize)
        requires
            self.wf(),
        ensures
            r == self@.dom().len(),
    {
        proof {
            lemma_unique_len(self.entries@);
        }
        self.entries.len()
    }
}

proof fn lemma_unique_len(s: Seq<(String, FetchResult)>)
    requires
        unique_keys(s),
    ensures
        entries_map(s).dom().len() == s.len(),
        entries_map(s).dom().finite(),
    decreases s.len(),
{
    if s.len() > 0 {
        assert(unique_keys(s.drop_last()));
        lemma_unique_len(s.drop_last());
        lemma_entries_dom(s.drop_last(), s.last().0@);
        if entries_map(s.drop_last()).contains_key(s.last().0@) {
            let j = choose|j: int| 0 <= j < s.drop_last().len() && s.drop_last()[j].0@ == s.last().0@;
            assert(s[j].0@ == s[s.len() - 1].0@);
        }
    }
}

/// What the aggregator holds after recording `s` in order: each success is
/// stored under its album name, a later one replacing an earlier one, and each
/// failure leaves it as it was.
pub open spec fn outcomes_map(s: Seq<FetchOutcome>) -> Map<Seq<char>, (usize, Seq<u8>)>
    decreases s.len(),
{
    if s.len() == 0 {
        Map::empty()
    } else {
        let prev = outcomes_map(s.drop_last());
        match s.last() {
            Ok(p) => prev.insert(p.0@, p.1@),
            Err(_) => prev,
        }
    }
}

/// The album name of a successful outcome.
pub open spec fn outcome_name(o: FetchOutcome) -> Seq<char> {
    o->Ok_0.0@
}

impl ResultAggregator {
    /// Records one fetch outcome: a success is stored under its album name, a
    /// failure is dropped and leaves the store unchanged.
    pub fn record(&mut self, outcome: FetchOutcome)
        requires
            old(self).wf(),
        ensures
            final(self).wf(),
            final(self)@ == match outcome {
                Ok(p) => old(self)@.insert(p.0@, p.1@),
                Err(_) => old(self)@,
            },
    {
        match outcome {
            Ok(p) => self.insert(p.0, p.1),
            Err(_) => {},
        }
    }
}

/// Gathers every outcome, in the order given, into a fresh store.
pub fn collect_outcomes(outcomes: Vec<FetchOutcome>) -> (r: ResultAggregator)
    ensures
        r.wf(),
        r@ == outcomes_map(outcomes@),
{
    let ghost all = outcomes@;
    let mut rest = outcomes;
    let mut agg = ResultAggregator::new();
    let ghost mut k: int = 0;
    while rest.len() > 0
        invariant
            0 <= k <= all.len(),
            rest@ == all.skip(k),
            agg.wf(),
            agg@ == outcomes_map(all.take(k)),
        decreases rest@.len(),
    {
        let o = rest.remove(0);
        proof {
            assert(o == all[k]);
            assert(all.take(k + 1).drop_last() =~= all.take(k));
            assert(all.take(k + 1).last() == all[k]);
            assert(rest@ =~= all.skip(k + 1));
            k = k + 1;
        }
        agg.record(o);
    }
    proof {
        assert(all.take(k) =~= all);
    }
    agg
}

/// With no failed fetch and distinct album names, the store holds exactly one
/// entry per album, under that album's name.
pub proof fn lemma_all_successes_recorded(s: Seq<FetchOutcome>)
    requires
        forall|i: int| 0 <= i < s.len() ==> s[i] is Ok,
        forall|i: int, j: int|
            0 <= i < s.len() && 0 <= j < s.len() && i != j ==> outcome_name(s[i]) != outcome_name(
                s[j],
            ),
    ensures
        outcomes_map(s).dom().finite(),
        outcomes_map(s).dom().len() == s.len(),
        forall|i: int| 0 <= i < s.len() ==> outcomes_map(s).contains_key(#[trigger] outcome_name(s[i])),
        forall|k: Seq<char>|
            outcomes_map(s).contains_key(k) ==> exists|i: int| 0 <= i < s.len() && outcome_name(s[i]) == k,
    decreases s.len(),
{
    if s.len() > 0 {
        let t = s.drop_last();
        assert forall|i: int, j: int|
            0 <= i < t.len() && 0 <= j < t.len() && i != j implies outcome_name(t[i]) != outcome_name(t[j]) by {
            assert(t[i] == s[i] && t[j] == s[j]);
        }
        assert forall|i: int| 0 <= i < t.len() implies t[i] is Ok by {
            assert(t[i] == s[i]);
        }
        lemma_all_successes_recorded(t);
        let n = s.len() - 1;
        assert(s.last() is Ok);
        if outcomes_map(t).contains_key(outcome_name(s[n])) {
            let i = choose|i: int| 0 <= i < t.len() && outcome_name(t[i]) == outcome_name(s[n]);
            assert(t[i] == s[i]);
        }
        assert forall|i: int| 0 <= i < s.len() implies outcomes_map(s).contains_key(#[trigger] outcome_name(s[i])) by {
            if i < n {
                assert(t[i] == s[i]);
                assert(outcomes_map(t).contains_key(outcome_name(t[i])));
            }
        }
        assert forall|k: Seq<char>| outcomes_map(s).contains_key(k) implies exists|i: int|
            0 <= i < s.len() && outcome_name(s[i]) == k by {
            if k != outcome_name(s[n]) {
                let i = choose|i: int| 0 <= i < t.len() && outcome_name(t[i]) == k;
                assert(t[i] == s[i]);
            }
        }
    }
}

/// A failed fetch never hides another album's success: every successful
/// outcome is in the store, whatever failed around it.
pub proof fn lemma_failure_spares_others(s: Seq<FetchOutcome>, j: int)
    requires
        0 <= j < s.len(),
        s[j] is Ok,
    ensures
        outcomes_map(s).contains_key(outcome_name(s[j])),
    decreases s.len(),
{
    if j < s.len() - 1 {
        assert(s.drop_last()[j] == s[j]);
        lemma_failure_spares_others(s.drop_last(), j);
    }
}

} // verus!
