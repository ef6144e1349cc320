//! The lookup interactor: deduplicated search. A search reads through
//! the repository; only a miss creates a `Started` lookup, persists it,
//! and then publishes one `LookupAlbumSearchUpdated` event. The publish
//! comes only after the repository write: no event is emitted for state
//! that was not durably recorded, and none on a repeated search.

use crate::events::{Event, EventPayload, EventPublisher, EventView, PayloadView, Stream};
use crate::files::FileName;
use crate::lookup::{
    correlation_of, get_album_search_correlation_id, query_view_of, AlbumSearchLookup,
    AlbumSearchLookupQuery, LookupView, QueryView,
};
use crate::repository::{
    found_slot, parsed_to, AggregatedStatus, AlbumSearchLookupRepository, aggregate_spec,
};
use crate::Error;
use vstd::prelude::*;

verus! {

/// The lookup a search returns: the stored one on a hit, a fresh
/// `Started` one on a miss.
pub open spec fn search_lookup(repo: Map<QueryView, LookupView>, q: QueryView) -> LookupView {
    if repo.contains_key(q) {
        repo[q]
    } else {
        LookupView::Started { query: q }
    }
}

/// The repository after a search: unchanged on a hit, extended by the
/// fresh lookup on a miss.
pub open spec fn search_post_repo(repo: Map<QueryView, LookupView>, q: QueryView) -> Map<
    QueryView,
    LookupView,
> {
    if repo.contains_key(q) {
        repo
    } else {
        repo.insert(q, LookupView::Started { query: q })
    }
}

/// The envelope a search miss publishes: the fresh lookup, correlated by
/// the query's identifier, with no metadata.
pub open spec fn search_event(q: QueryView) -> PayloadView {
    PayloadView {
        event: EventView::LookupAlbumSearchUpdated { lookup: LookupView::Started { query: q } },
        correlation_id: Some(correlation_of(q)),
        metadata: None,
    }
}

/// The lookup stream after a search: unchanged on a hit, one appended
/// envelope on a miss.
pub open spec fn search_post_log(
    repo: Map<QueryView, LookupView>,
    log: Seq<PayloadView>,
    q: QueryView,
) -> Seq<PayloadView> {
    if repo.contains_key(q) {
        log
    } else {
        log.push(search_event(q))
    }
}

/// Searching is idempotent: with no intervening mutation, a second
/// search for the same identity returns the same lookup and leaves the
/// repository and the stream exactly as the first left them — in
/// particular, no second event is published.
pub proof fn lemma_search_album_idempotent(
    repo: Map<QueryView, LookupView>,
    log: Seq<PayloadView>,
    q: QueryView,
)
    requires
        forall|k: QueryView| repo.contains_key(k) ==> (#[trigger] repo[k]).query() == k,
    ensures
        ({
            let repo1 = search_post_repo(repo, q);
            let log1 = search_post_log(repo, log, q);
            &&& search_lookup(repo1, q) == search_lookup(repo, q)
            &&& search_lookup(repo1, q).query() == q
            &&& search_post_repo(repo1, q) == repo1
            &&& search_post_log(repo1, log1, q) == log1
        }),
{
}

/// Orchestrates deduplicated search over the repository and the event
/// publisher, and passes batch and aggregation reads through.
#[derive(Debug)]
pub struct LookupInteractor {
    pub album_search_lookup_repository: AlbumSearchLookupRepository,
    pub event_publisher: EventPublisher,
}

impl LookupInteractor {
    /// The store's abstract content.
    pub open spec fn repo(&self) -> Map<QueryView, LookupView> {
        self.album_search_lookup_repository@
    }

    /// The record list behind the store.
    pub open spec fn repo_entries(&self) -> Seq<LookupView> {
        self.album_search_lookup_repository.entries()
    }

    /// The entries so far published to the lookup stream.
    pub open spec fn lookup_log(&self) -> Seq<PayloadView> {
        self.event_publisher.log_of(Stream::Lookup)
    }

    pub open spec fn wf(&self) -> bool {
        self.album_search_lookup_repository.wf()
    }

    /// An interactor over an empty store and empty streams.
    pub fn new() -> (r: Self)
        ensures
            r.wf(),
            r.repo() == Map::<QueryView, LookupView>::empty(),
            r.repo_entries() == Seq::<LookupView>::empty(),
            r.lookup_log() == Seq::<PayloadView>::empty(),
            r.event_publisher.log_of(Stream::Parser) == Seq::<PayloadView>::empty(),
    {
        LookupInteractor {
            album_search_lookup_repository: AlbumSearchLookupRepository::new(),
            event_publisher: EventPublisher::new(),
        }
    }

    /// Upserts a lookup record; the streams are untouched.
    pub fn put_album_search_lookup(&mut self, lookup: &AlbumSearchLookup) -> (r: Result<(), Error>)
        requires
            old(self).wf(),
        ensures
            final(self).wf(),
            r == Ok::<(), Error>(()),
            final(self).repo() == old(self).repo().insert(lookup@.query(), lookup@),
            final(self).event_publisher == old(self).event_publisher,
    {
        self.album_search_lookup_repository.put(lookup)
    }

    /// Exact read by query identity; absence is not an error.
    pub fn find_album_search_lookup(&self, query: &AlbumSearchLookupQuery) -> (r: Result<
        Option<AlbumSearchLookup>,
        Error,
    >)
        requires
            self.wf(),
        ensures
            r matches Ok(slot) && found_slot(self.repo(), query@, slot),
    {
        self.album_search_lookup_repository.find(query)
    }

    /// Read where the caller requires presence: absence is `NotFound`.
    pub fn get_album_search_lookup(&self, query: &AlbumSearchLookupQuery) -> (r: Result<
        AlbumSearchLookup,
        Error,
    >)
        requires
            self.wf(),
        ensures
            self.repo().contains_key(query@) ==> (r matches Ok(l) && l@ == self.repo()[query@]),
            !self.repo().contains_key(query@) ==> r == Err::<AlbumSearchLookup, Error>(
                Error::NotFound,
            ),
    {
        self.album_search_lookup_repository.get(query)
    }

    /// The dedup-and-create protocol: return the stored lookup on a hit;
    /// on a miss create a `Started` lookup, persist it, and only then
    /// publish one `LookupAlbumSearchUpdated` envelope carrying it.
    pub fn search_album(&mut self, artist_name: String, album_name: String) -> (r: Result<
        AlbumSearchLookup,
        Error,
    >)
        requires
            old(self).wf(),
        ensures
            final(self).wf(),
            ({
                let q = query_view_of(artist_name@, album_name@);
                &&& r matches Ok(l) && l@ == search_lookup(old(self).repo(), q)
                &&& final(self).repo() == search_post_repo(old(self).repo(), q)
                &&& final(self).lookup_log() == search_post_log(
                    old(self).repo(),
                    old(self).lookup_log(),
                    q,
                )
                &&& final(self).event_publisher.log_of(Stream::Parser) == old(
                    self,
                ).event_publisher.log_of(Stream::Parser)
            }),
    {
        let query = AlbumSearchLookupQuery::new(album_name, artist_name);
        let found = self.album_search_lookup_repository.find(&query)?;
        match found {
            Some(lookup) => Ok(lookup),
            None => {
                let lookup = AlbumSearchLookup::new(query);
                self.album_search_lookup_repository.put(&lookup)?;
                let correlation_id = get_album_search_correlation_id(lookup.query());
                let payload = EventPayload {
                    event: Event::LookupAlbumSearchUpdated { lookup: lookup.clone() },
                    correlation_id: Some(correlation_id),
                    metadata: None,
                };
                self.event_publisher.publish(Stream::Lookup, payload)?;
                Ok(lookup)
            },
        }
    }

    /// Pass-through status aggregation over all stored lookups.
    pub fn aggregate_statuses(&self) -> (r: Result<Vec<AggregatedStatus>, Error>)
        requires
            self.wf(),
        ensures
            r matches Ok(v) && v@ == aggregate_spec(self.repo_entries()),
    {
        self.album_search_lookup_repository.aggregate_statuses()
    }

    /// Pass-through batch read: one slot per query, in input order.
    pub fn find_many_album_search_lookups(&self, queries: Vec<&AlbumSearchLookupQuery>) -> (r:
        Result<Vec<Option<AlbumSearchLookup>>, Error>)
        requires
            self.wf(),
        ensures
            r matches Ok(v) && v@.len() == queries@.len() && forall|i: int|
                0 <= i < queries@.len() ==> found_slot(self.repo(), queries@[i]@, v@[i]),
    {
        self.album_search_lookup_repository.find_many(queries)
    }

    /// Pass-through reverse lookup by resolved artifact.
    pub fn find_many_album_search_lookups_by_album_file_name(&self, album_file_name: &FileName) -> (
        r: Result<Vec<AlbumSearchLookup>, Error>)
        requires
            self.wf(),
        ensures
            r matches Ok(v) && v@.map_values(|l: AlbumSearchLookup| l@) == parsed_to(
                self.repo_entries(),
                album_file_name@,
            ),
    {
        self.album_search_lookup_repository.find_many_by_album_file_name(album_file_name)
    }
}

} // verus!
