//! The album-search lookup state machine: query identity, correlation-id
//! derivation, and the states a search passes through. Pure data and
//! transition helpers; no I/O.

use crate::files::FileName;
use crate::text::{norm, normalize};
use vstd::prelude::*;

verus! {

/// The mathematical identity of a query: the normalized name pair.
pub ghost struct QueryView {
    pub artist: Seq<char>,
    pub album: Seq<char>,
}

/// The query identity obtained from raw (un-normalized) inputs.
pub open spec fn query_view_of(artist: Seq<char>, album: Seq<char>) -> QueryView {
    QueryView { artist: norm(artist), album: norm(album) }
}

/// A search's identity: `(artist_name, album_name)`, held in normalized
/// (ASCII-lowercased) form. Equal identities deduplicate to one lookup.
#[derive(Debug)]
pub struct AlbumSearchLookupQuery {
    album_name: String,
    artist_name: String,
}

impl View for AlbumSearchLookupQuery {
    type V = QueryView;

    closed spec fn view(&self) -> QueryView {
        QueryView { artist: self.artist_name@, album: self.album_name@ }
    }
}

impl AlbumSearchLookupQuery {
    /// Builds a query identity, applying the fixed normalization to both
    /// names.
    pub fn new(album_name: String, artist_name: String) -> (q: Self)
        ensures
            q@ == query_view_of(artist_name@, album_name@),
    {
        AlbumSearchLookupQuery {
            album_name: normalize(album_name.as_str()),
            artist_name: normalize(artist_name.as_str()),
        }
    }

    /// The normalized artist name.
    pub fn artist_name(&self) -> (r: &String)
        ensures
            r@ == self@.artist,
    {
        &self.artist_name
    }

    /// The normalized album name.
    pub fn album_name(&self) -> (r: &String)
        ensures
            r@ == self@.album,
    {
        &self.album_name
    }
}

impl Clone for AlbumSearchLookupQuery {
    fn clone(&self) -> (r: Self)
        ensures
            r@ == self@,
    {
        AlbumSearchLookupQuery {
            album_name: self.album_name.clone(),
            artist_name: self.artist_name.clone(),
        }
    }
}

impl PartialEq for AlbumSearchLookupQuery {
    fn eq(&self, other: &Self) -> (r: bool) {
        self.album_name == other.album_name && self.artist_name == other.artist_name
    }
}

impl vstd::std_specs::cmp::PartialEqSpecImpl for AlbumSearchLookupQuery {
    open spec fn obeys_eq_spec() -> bool {
        true
    }

    open spec fn eq_spec(&self, other: &Self) -> bool {
        self@ == other@
    }
}

/// The correlation identifier for a query identity: the canonical
/// concatenation `lookup:album_search:<artist>:<album>` over the
/// normalized names. Deterministic: equal identities give equal ids.
pub open spec fn correlation_of(q: QueryView) -> Seq<char> {
    "lookup:album_search:"@ + q.artist + ":"@ + q.album
}

/// Derives the correlation identifier that every event emitted while
/// resolving this query must carry.
pub fn get_album_search_correlation_id(query: &AlbumSearchLookupQuery) -> (r: String)
    ensures
        r@ == correlation_of(query@),
{
    let mut r = String::new();
    r.append("lookup:album_search:");
    r.append(query.artist_name().as_str());
    r.append(":");
    r.append(query.album_name().as_str());
    r
}

/// Correlation ids are deterministic over query identity: raw inputs that
/// normalization folds together yield the same identifier.
pub proof fn lemma_correlation_id_deterministic(
    artist1: Seq<char>,
    album1: Seq<char>,
    artist2: Seq<char>,
    album2: Seq<char>,
)
    requires
        norm(artist1) == norm(artist2),
        norm(album1) == norm(album2),
    ensures
        correlation_of(query_view_of(artist1, album1)) == correlation_of(
            query_view_of(artist2, album2),
        ),
{
}

/// One distinct lookup state.
#[derive(Clone, Copy, Debug, PartialEq, Eq, Structural)]
pub enum LookupStatus {
    Started,
    AlbumParsed,
    AlbumNotFound,
    Errored,
}

/// The structured result a parse produced for a search.
#[derive(Debug)]
pub struct AlbumSearchResult {
    pub album_name: String,
    pub artist_name: String,
    pub file_name: FileName,
}

/// The mathematical content of an `AlbumSearchResult`.
pub ghost struct ResultView {
    pub album: Seq<char>,
    pub artist: Seq<char>,
    pub file_name: Seq<char>,
}

impl View for AlbumSearchResult {
    type V = ResultView;

    open spec fn view(&self) -> ResultView {
        ResultView {
            album: self.album_name@,
            artist: self.artist_name@,
            file_name: self.file_name@,
        }
    }
}

impl Clone for AlbumSearchResult {
    fn clone(&self) -> (r: Self)
        ensures
            r@ == self@,
    {
        AlbumSearchResult {
            album_name: self.album_name.clone(),
            artist_name: self.artist_name.clone(),
            file_name: self.file_name.clone(),
        }
    }
}

/// The mathematical content of a lookup entity.
pub ghost enum LookupView {
    Started { query: QueryView },
    AlbumParsed { query: QueryView, result: ResultView },
    AlbumNotFound { query: QueryView },
    Errored { query: QueryView, error: Seq<char> },
}

impl LookupView {
    /// The query identity the lookup belongs to: stable across every
    /// transition.
    pub open spec fn query(self) -> QueryView {
        match self {
            LookupView::Started { query } => query,
            LookupView::AlbumParsed { query, .. } => query,
            LookupView::AlbumNotFound { query } => query,
            LookupView::Errored { query, .. } => query,
        }
    }

    /// The status tag of this state.
    pub open spec fn status(self) -> LookupStatus {
        match self {
            LookupView::Started { .. } => LookupStatus::Started,
            LookupView::AlbumParsed { .. } => LookupStatus::AlbumParsed,
            LookupView::AlbumNotFound { .. } => LookupStatus::AlbumNotFound,
            LookupView::Errored { .. } => LookupStatus::Errored,
        }
    }

    /// A terminal state: no further automatic transition occurs.
    pub open spec fn is_terminal(self) -> bool {
        !(self is Started)
    }
}

/// A persisted record of one search's resolution state.
#[derive(Debug)]
pub enum AlbumSearchLookup {
    Started { query: AlbumSearchLookupQuery },
    AlbumParsed { query: AlbumSearchLookupQuery, parsed_album_search_result: AlbumSearchResult },
    AlbumNotFound { query: AlbumSearchLookupQuery },
    Errored { query: AlbumSearchLookupQuery, error: String },
}

impl View for AlbumSearchLookup {
    type V = LookupView;

    open spec fn view(&self) -> LookupView {
        match self {
            AlbumSearchLookup::Started { query } => LookupView::Started { query: query@ },
            AlbumSearchLookup::AlbumParsed { query, parsed_album_search_result } => {
                LookupView::AlbumParsed { query: query@, result: parsed_album_search_result@ }
            },
            AlbumSearchLookup::AlbumNotFound { query } => {
                LookupView::AlbumNotFound { query: query@ }
            },
            AlbumSearchLookup::Errored { query, error } => {
                LookupView::Errored { query: query@, error: error@ }
            },
        }
    }
}

impl Clone for AlbumSearchLookup {
    fn clone(&self) -> (r: Self)
        ensures
            r@ == self@,
    {
        match self {
            AlbumSearchLookup::Started { query } => {
                AlbumSearchLookup::Started { query: query.clone() }
            },
            AlbumSearchLookup::AlbumParsed { query, parsed_album_search_result } => {
                AlbumSearchLookup::AlbumParsed {
                    query: query.clone(),
                    parsed_album_search_result: parsed_album_search_result.clone(),
                }
            },
            AlbumSearchLookup::AlbumNotFound { query } => {
                AlbumSearchLookup::AlbumNotFound { query: query.clone() }
            },
            AlbumSearchLookup::Errored { query, error } => {
                AlbumSearchLookup::Errored { query: query.clone(), error: error.clone() }
            },
        }
    }
}

impl AlbumSearchLookup {
    /// A fresh lookup for a query: the `Started` state.
    pub fn new(query: AlbumSearchLookupQuery) -> (r: Self)
        ensures
            r@ == (LookupView::Started { query: query@ }),
    {
        AlbumSearchLookup::Started { query }
    }

    /// The query identity this lookup resolves.
    pub fn query(&self) -> (r: &AlbumSearchLookupQuery)
        ensures
            r@ == self@.query(),
    {
        match self {
            AlbumSearchLookup::Started { query } => query,
            AlbumSearchLookup::AlbumParsed { query, .. } => query,
            AlbumSearchLookup::AlbumNotFound { query } => query,
            AlbumSearchLookup::Errored { query, .. } => query,
        }
    }

    /// The status tag of the current state.
    pub fn status(&self) -> (r: LookupStatus)
        ensures
            r == self@.status(),
    {
        match self {
            AlbumSearchLookup::Started { .. } => LookupStatus::Started,
            AlbumSearchLookup::AlbumParsed { .. } => LookupStatus::AlbumParsed,
            AlbumSearchLookup::AlbumNotFound { .. } => LookupStatus::AlbumNotFound,
            AlbumSearchLookup::Errored { .. } => LookupStatus::Errored,
        }
    }

    /// Transition: a parse resolved the search to an artifact.
    pub fn with_parsed(self, result: AlbumSearchResult) -> (r: Self)
        ensures
            r@ == (LookupView::AlbumParsed { query: self@.query(), result: result@ }),
    {
        let query = match self {
            AlbumSearchLookup::Started { query } => query,
            AlbumSearchLookup::AlbumParsed { query, .. } => query,
            AlbumSearchLookup::AlbumNotFound { query } => query,
            AlbumSearchLookup::Errored { query, .. } => query,
        };
        AlbumSearchLookup::AlbumParsed { query, parsed_album_search_result: result }
    }

    /// Transition: the search terminated with no matching album.
    pub fn with_not_found(self) -> (r: Self)
        ensures
            r@ == (LookupView::AlbumNotFound { query: self@.query() }),
    {
        let query = match self {
            AlbumSearchLookup::Started { query } => query,
            AlbumSearchLookup::AlbumParsed { query, .. } => query,
            AlbumSearchLookup::AlbumNotFound { query } => query,
            AlbumSearchLookup::Errored { query, .. } => query,
        };
        AlbumSearchLookup::AlbumNotFound { query }
    }

    /// Transition: resolving the search failed; the detail is kept for
    /// inspection or a later re-trigger.
    pub fn with_error(self, error: String) -> (r: Self)
        ensures
            r@ == (LookupView::Errored { query: self@.query(), error: error@ }),
    {
        let query = match self {
            AlbumSearchLookup::Started { query } => query,
            AlbumSearchLookup::AlbumParsed { query, .. } => query,
            AlbumSearchLookup::AlbumNotFound { query } => query,
            AlbumSearchLookup::Errored { query, .. } => query,
        };
        AlbumSearchLookup::Errored { query, error }
    }
}

} // verus!
