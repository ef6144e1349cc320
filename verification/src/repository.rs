//! The lookup repository: persistence of lookup state keyed by query
//! identity, reverse lookup by resolved artifact, batch retrieval that
//! preserves input order, and status aggregation.
//!
//! The store is modelled as a record list with at most one record per
//! query identity; its abstract view is the map from identity to state.

use crate::files::FileName;
use crate::lookup::{
    AlbumSearchLookup, AlbumSearchLookupQuery, LookupStatus, LookupView, QueryView,
};
use crate::Error;
use vstd::prelude::*;

verus! {

/// No two records share a query identity.
pub open spec fn distinct_keys(s: Seq<LookupView>) -> bool {
    forall|i: int, j: int|
        0 <= i < j < s.len() ==> #[trigger] s[i].query() != #[trigger] s[j].query()
}

/// The map a record list denotes: later records win, though under
/// `distinct_keys` there is exactly one record per key.
pub open spec fn lookups_map(s: Seq<LookupView>) -> Map<QueryView, LookupView>
    decreases s.len(),
{
    if s.len() == 0 {
        Map::empty()
    } else {
        lookups_map(s.drop_last()).insert(s.last().query(), s.last())
    }
}

/// The record list and its map agree: each record is at its key, and
/// every key holds a record.
pub proof fn lemma_lookups_map_correspondence(s: Seq<LookupView>)
    requires
        distinct_keys(s),
    ensures
        forall|i: int|
            0 <= i < s.len() ==> lookups_map(s).contains_key(#[trigger] s[i].query())
                && lookups_map(s)[s[i].query()] == s[i],
        forall|k: QueryView|
            lookups_map(s).contains_key(k) ==> exists|i: int|
                0 <= i < s.len() && #[trigger] s[i].query() == k,
    decreases s.len(),
{
    if s.len() > 0 {
        let s0 = s.drop_last();
        assert(distinct_keys(s0));
        lemma_lookups_map_correspondence(s0);
        assert forall|i: int|
            0 <= i < s.len() implies lookups_map(s).contains_key(#[trigger] s[i].query())
            && lookups_map(s)[s[i].query()] == s[i] by {
            if i < s.len() - 1 {
                assert(s0[i] == s[i]);
                assert(s[i].query() != s.last().query());
            }
        }
        assert forall|k: QueryView| lookups_map(s).contains_key(k) implies exists|i: int|
            0 <= i < s.len() && #[trigger] s[i].query() == k by {
            if k != s.last().query() {
                assert(lookups_map(s0).contains_key(k));
                let i = choose|i: int| 0 <= i < s0.len() && #[trigger] s0[i].query() == k;
                assert(s[i] == s0[i]);
                assert(s[i].query() == k);
            } else {
                assert(s[s.len() - 1].query() == k);
            }
        }
    }
}

/// Replacing the record at a key leaves the map as an insert at that key.
pub proof fn lemma_lookups_map_update(s: Seq<LookupView>, i: int, l: LookupView)
    requires
        distinct_keys(s),
        0 <= i < s.len(),
        l.query() == s[i].query(),
    ensures
        lookups_map(s.update(i, l)) == lookups_map(s).insert(l.query(), l),
        distinct_keys(s.update(i, l)),
    decreases s.len(),
{
    let s2 = s.update(i, l);
    assert(distinct_keys(s2));
    if i == s.len() - 1 {
        assert(s2.drop_last() =~= s.drop_last());
        assert(s2.last() == l);
        assert(lookups_map(s2) =~= lookups_map(s).insert(l.query(), l));
    } else {
        let s0 = s.drop_last();
        assert(distinct_keys(s0));
        lemma_lookups_map_update(s0, i, l);
        assert(s2.drop_last() =~= s0.update(i, l));
        assert(s2.last() == s.last());
        assert(l.query() != s.last().query());
        assert(lookups_map(s2) =~= lookups_map(s).insert(l.query(), l));
    }
}

/// Whether a batch slot reports the store's content at one key: the
/// stored record where the key is present, `None` where it is absent.
pub open spec fn found_slot(
    m: Map<QueryView, LookupView>,
    k: QueryView,
    slot: Option<AlbumSearchLookup>,
) -> bool {
    if m.contains_key(k) {
        slot matches Some(l) && l@ == m[k]
    } else {
        slot is None
    }
}

/// The lookup resolved to the artifact named `f`.
pub open spec fn is_parsed_to(l: LookupView, f: Seq<char>) -> bool {
    l matches LookupView::AlbumParsed { result, .. } && result.file_name == f
}

/// The records whose terminal result points at an artifact, in store
/// order.
pub open spec fn parsed_to(s: Seq<LookupView>, f: Seq<char>) -> Seq<LookupView>
    decreases s.len(),
{
    if s.len() == 0 {
        Seq::empty()
    } else {
        let rest = parsed_to(s.drop_last(), f);
        if is_parsed_to(s.last(), f) {
            rest.push(s.last())
        } else {
            rest
        }
    }
}

/// The reverse lookup under an artifact holds exactly the stored records
/// that resolved to it: every member is such a record, and every such
/// record is a member.
pub proof fn lemma_secondary_index(s: Seq<LookupView>, f: Seq<char>)
    ensures
        forall|l: LookupView| #[trigger] parsed_to(s, f).contains(l) ==> is_parsed_to(l, f)
            && s.contains(l),
        forall|i: int|
            0 <= i < s.len() && is_parsed_to(#[trigger] s[i], f) ==> parsed_to(s, f).contains(
                s[i],
            ),
    decreases s.len(),
{
    if s.len() > 0 {
        let s0 = s.drop_last();
        lemma_secondary_index(s0, f);
        let r = parsed_to(s, f);
        let r0 = parsed_to(s0, f);
        assert forall|l: LookupView| #[trigger] r.contains(l) implies is_parsed_to(l, f)
            && s.contains(l) by {
            let w = choose|w: int| 0 <= w < r.len() && r[w] == l;
            if is_parsed_to(s.last(), f) && w == r.len() - 1 {
                assert(s[s.len() - 1] == l);
            } else {
                assert(r[w] == r0[w]);
                assert(r0.contains(l));
                let w2 = choose|w2: int| 0 <= w2 < s0.len() && s0[w2] == l;
                assert(s[w2] == l);
            }
        }
        assert forall|i: int| 0 <= i < s.len() && is_parsed_to(#[trigger] s[i], f) implies
            r.contains(s[i]) by {
            if i == s.len() - 1 {
                assert(r[r.len() - 1] == s[i]);
            } else {
                assert(s0[i] == s[i]);
                assert(r0.contains(s0[i]));
                let w = choose|w: int| 0 <= w < r0.len() && r0[w] == s0[i];
                assert(r[w] == r0[w]);
                assert(r.contains(s[i]));
            }
        }
    }
}

/// Secondary-index consistency at one key: once the record under a
/// query resolves to artifact `f`, the reverse lookup under `f` includes
/// it; while it does not, no member of that reverse lookup belongs to
/// the query.
pub proof fn lemma_secondary_index_consistency(s: Seq<LookupView>, f: Seq<char>, k: QueryView)
    requires
        distinct_keys(s),
        lookups_map(s).contains_key(k),
    ensures
        is_parsed_to(lookups_map(s)[k], f) ==> parsed_to(s, f).contains(lookups_map(s)[k]),
        !is_parsed_to(lookups_map(s)[k], f) ==> forall|l: LookupView|
            #[trigger] parsed_to(s, f).contains(l) ==> l.query() != k,
{
    lemma_lookups_map_correspondence(s);
    lemma_secondary_index(s, f);
    let i = choose|i: int| 0 <= i < s.len() && #[trigger] s[i].query() == k;
    assert(lookups_map(s)[k] == s[i]);
    if !is_parsed_to(lookups_map(s)[k], f) {
        assert forall|l: LookupView| #[trigger] parsed_to(s, f).contains(l) implies l.query()
            != k by {
            let w = choose|w: int| 0 <= w < s.len() && s[w] == l;
            if l.query() == k {
                assert(lookups_map(s)[s[w].query()] == s[w]);
            }
        }
    }
}

/// How many records are in a given state.
pub open spec fn count_status(s: Seq<LookupView>, st: LookupStatus) -> int
    decreases s.len(),
{
    if s.len() == 0 {
        0int
    } else {
        count_status(s.drop_last(), st) + if s.last().status() == st {
            1int
        } else {
            0int
        }
    }
}

/// One row of the on-demand status summary.
#[derive(Clone, Copy, Debug, PartialEq, Eq, Structural)]
pub struct AggregatedStatus {
    pub status: LookupStatus,
    pub count: usize,
}

/// The summary row for one state, absent when no record is in it.
pub open spec fn agg_entry(s: Seq<LookupView>, st: LookupStatus) -> Seq<AggregatedStatus> {
    if count_status(s, st) > 0 {
        seq![AggregatedStatus { status: st, count: count_status(s, st) as usize }]
    } else {
        Seq::empty()
    }
}

/// The full summary: one row per state that holds at least one record,
/// in the fixed state order.
pub open spec fn aggregate_spec(s: Seq<LookupView>) -> Seq<AggregatedStatus> {
    agg_entry(s, LookupStatus::Started) + agg_entry(s, LookupStatus::AlbumParsed) + agg_entry(
        s,
        LookupStatus::AlbumNotFound,
    ) + agg_entry(s, LookupStatus::Errored)
}

/// Keyed storage of lookups: an upsert per query identity, exact and
/// batch reads, reverse lookup by artifact, and status aggregation.
#[derive(Debug)]
pub struct AlbumSearchLookupRepository {
    lookups: Vec<AlbumSearchLookup>,
}

impl View for AlbumSearchLookupRepository {
    type V = Map<QueryView, LookupView>;

    closed spec fn view(&self) -> Map<QueryView, LookupView> {
        lookups_map(self.entries())
    }
}

impl AlbumSearchLookupRepository {
    /// The stored records, in first-insertion order.
    pub closed spec fn entries(&self) -> Seq<LookupView> {
        self.lookups@.map_values(|l: AlbumSearchLookup| l@)
    }

    /// At most one record per query identity.
    pub closed spec fn wf(&self) -> bool {
        distinct_keys(self.entries())
    }

    /// The map view is the one the record list denotes.
    pub proof fn lemma_view_entries(&self)
        ensures
            self@ == lookups_map(self.entries()),
            self.wf() == distinct_keys(self.entries()),
    {
    }

    /// An empty store.
    pub fn new() -> (r: Self)
        ensures
            r.wf(),
            r@ == Map::<QueryView, LookupView>::empty(),
            r.entries() == Seq::<LookupView>::empty(),
    {
        let r = AlbumSearchLookupRepository { lookups: Vec::new() };
        proof {
            assert(r.entries() =~= Seq::<LookupView>::empty());
        }
        r
    }

    /// Upsert keyed by query identity: overwrites any prior state for the
    /// same query, last writer wins.
    pub fn put(&mut self, lookup: &AlbumSearchLookup) -> (r: Result<(), Error>)
        requires
            old(self).wf(),
        ensures
            final(self).wf(),
            r == Ok::<(), Error>(()),
            final(self)@ == old(self)@.insert(lookup@.query(), lookup@),
            old(self)@.contains_key(lookup@.query()) ==> exists|i: int|
                0 <= i < old(self).entries().len() && (#[trigger] old(self).entries()[i]).query()
                    == lookup@.query() && final(self).entries() == old(self).entries().update(
                    i,
                    lookup@,
                ),
            !old(self)@.contains_key(lookup@.query()) ==> final(self).entries() == old(
                self,
            ).entries().push(lookup@),
    {
        let ghost s = self.entries();
        let n = self.lookups.len();
        let mut i: usize = 0;
        while i < n
            invariant
                n == self.lookups.len(),
                i <= n,
                s == self.entries(),
                old(self).entries() == s,
                old(self)@ == lookups_map(s),
                distinct_keys(s),
                forall|j: int| 0 <= j < i ==> s[j].query() != lookup@.query(),
            decreases n - i,
        {
            if self.lookups[i].query() == lookup.query() {
                proof {
                    assert(s[i as int].query() == lookup@.query());
                    lemma_lookups_map_correspondence(s);
                    lemma_lookups_map_update(s, i as int, lookup@);
                    assert(lookups_map(s).contains_key(s[i as int].query()));
                }
                self.lookups.set(i, lookup.clone());
                proof {
                    assert(self.entries() =~= s.update(i as int, lookup@));
                    assert(self@ == lookups_map(s).insert(lookup@.query(), lookup@));
                }
                return Ok(());
            }
            i = i + 1;
        }
        self.lookups.push(lookup.clone());
        proof {
            lemma_lookups_map_correspondence(s);
            assert(self.entries() =~= s.push(lookup@));
            assert(self.entries().drop_last() =~= s);
            assert(!lookups_map(s).contains_key(lookup@.query()));
            assert(distinct_keys(self.entries()));
        }
        Ok(())
    }

    /// Exact read by query identity; absence is not an error.
    pub fn find(&self, query: &AlbumSearchLookupQuery) -> (r: Result<
        Option<AlbumSearchLookup>,
        Error,
    >)
        requires
            self.wf(),
        ensures
            r matches Ok(slot) && found_slot(self@, query@, slot),
    {
        let ghost s = self.entries();
        let n = self.lookups.len();
        let mut i: usize = 0;
        while i < n
            invariant
                n == self.lookups.len(),
                i <= n,
                s == self.entries(),
                distinct_keys(s),
                forall|j: int| 0 <= j < i ==> s[j].query() != query@,
            decreases n - i,
        {
            if self.lookups[i].query() == query {
                proof {
                    lemma_lookups_map_correspondence(s);
                    assert(s[i as int].query() == query@);
                    assert(self@.contains_key(query@));
                    assert(self@[query@] == s[i as int]);
                }
                return Ok(Some(self.lookups[i].clone()));
            }
            i = i + 1;
        }
        proof {
            lemma_lookups_map_correspondence(s);
        }
        Ok(None)
    }

    /// Read where presence is a precondition on the caller's side:
    /// absence is the `NotFound` error.
    pub fn get(&self, query: &AlbumSearchLookupQuery) -> (r: Result<AlbumSearchLookup, Error>)
        requires
            self.wf(),
        ensures
            self@.contains_key(query@) ==> (r matches Ok(l) && l@ == self@[query@]),
            !self@.contains_key(query@) ==> r == Err::<AlbumSearchLookup, Error>(Error::NotFound),
    {
        match self.find(query) {
            Ok(Some(lookup)) => Ok(lookup),
            _ => Err(Error::NotFound),
        }
    }

    /// Batch read: one slot per input query, in input order, `None` for
    /// misses. Never reorders or drops a slot.
    pub fn find_many(&self, queries: Vec<&AlbumSearchLookupQuery>) -> (r: Result<
        Vec<Option<AlbumSearchLookup>>,
        Error,
    >)
        requires
            self.wf(),
        ensures
            r matches Ok(v) && v@.len() == queries@.len() && forall|i: int|
                0 <= i < queries@.len() ==> found_slot(self@, queries@[i]@, v@[i]),
    {
        let mut v: Vec<Option<AlbumSearchLookup>> = Vec::new();
        let mut i: usize = 0;
        while i < queries.len()
            invariant
                self.wf(),
                i <= queries.len(),
                v@.len() == i,
                forall|j: int| 0 <= j < i ==> found_slot(self@, queries@[j]@, v@[j]),
            decreases queries.len() - i,
        {
            match self.find(queries[i]) {
                Ok(slot) => v.push(slot),
                Err(_) => v.push(None),
            }
            i = i + 1;
        }
        Ok(v)
    }

    /// Reverse lookup by resolved artifact: every stored lookup whose
    /// terminal result points at the artifact, in store order.
    pub fn find_many_by_album_file_name(&self, album_file_name: &FileName) -> (r: Result<
        Vec<AlbumSearchLookup>,
        Error,
    >)
        requires
            self.wf(),
        ensures
            r matches Ok(v) && v@.map_values(|l: AlbumSearchLookup| l@) == parsed_to(
                self.entries(),
                album_file_name@,
            ),
    {
        let ghost s = self.entries();
        let mut v: Vec<AlbumSearchLookup> = Vec::new();
        let n = self.lookups.len();
        let mut i: usize = 0;
        while i < n
            invariant
                n == self.lookups.len(),
                i <= n,
                s == self.entries(),
                v@.map_values(|l: AlbumSearchLookup| l@) == parsed_to(
                    s.subrange(0, i as int),
                    album_file_name@,
                ),
            decreases n - i,
        {
            let ghost prefix = s.subrange(0, i as int);
            proof {
                assert(s.subrange(0, i + 1).drop_last() =~= prefix);
                assert(s.subrange(0, i + 1).last() == s[i as int]);
            }
            let matched = match &self.lookups[i] {
                AlbumSearchLookup::AlbumParsed { parsed_album_search_result, .. } => {
                    &parsed_album_search_result.file_name == album_file_name
                },
                _ => false,
            };
            if matched {
                v.push(self.lookups[i].clone());
            }
            proof {
                assert(v@.map_values(|l: AlbumSearchLookup| l@) =~= parsed_to(
                    s.subrange(0, i + 1),
                    album_file_name@,
                ));
            }
            i = i + 1;
        }
        proof {
            assert(s.subrange(0, n as int) =~= s);
        }
        Ok(v)
    }

    /// Scans all stored lookups and counts them grouped by state: one row
    /// per state that occurs, in the fixed state order.
    pub fn aggregate_statuses(&self) -> (r: Result<Vec<AggregatedStatus>, Error>)
        requires
            self.wf(),
        ensures
            r matches Ok(v) && v@ == aggregate_spec(self.entries()),
    {
        let ghost s = self.entries();
        let n = self.lookups.len();
        let mut started: usize = 0;
        let mut parsed: usize = 0;
        let mut not_found: usize = 0;
        let mut errored: usize = 0;
        let mut i: usize = 0;
        while i < n
            invariant
                n == self.lookups.len(),
                i <= n,
                s == self.entries(),
                started == count_status(s.subrange(0, i as int), LookupStatus::Started),
                parsed == count_status(s.subrange(0, i as int), LookupStatus::AlbumParsed),
                not_found == count_status(s.subrange(0, i as int), LookupStatus::AlbumNotFound),
                errored == count_status(s.subrange(0, i as int), LookupStatus::Errored),
                started + parsed + not_found + errored <= i,
            decreases n - i,
        {
            let ghost prefix = s.subrange(0, i as int);
            proof {
                assert(s.subrange(0, i + 1).drop_last() =~= prefix);
                assert(s.subrange(0, i + 1).last() == s[i as int]);
            }
            match self.lookups[i].status() {
                LookupStatus::Started => started = started + 1,
                LookupStatus::AlbumParsed => parsed = parsed + 1,
                LookupStatus::AlbumNotFound => not_found = not_found + 1,
                LookupStatus::Errored => errored = errored + 1,
            }
            i = i + 1;
        }
        proof {
            assert(s.subrange(0, n as int) =~= s);
        }
        let mut v: Vec<AggregatedStatus> = Vec::new();
        if started > 0 {
            v.push(AggregatedStatus { status: LookupStatus::Started, count: started });
        }
        if parsed > 0 {
            v.push(AggregatedStatus { status: LookupStatus::AlbumParsed, count: parsed });
        }
        if not_found > 0 {
            v.push(AggregatedStatus { status: LookupStatus::AlbumNotFound, count: not_found });
        }
        if errored > 0 {
            v.push(AggregatedStatus { status: LookupStatus::Errored, count: errored });
        }
        proof {
            assert(v@ =~= aggregate_spec(s));
        }
        Ok(v)
    }
}

} // verus!
