use album_lookup::files::FileName;
use album_lookup::interactor::LookupInteractor;
use album_lookup::lookup::{
    get_album_search_correlation_id, AlbumSearchLookup, AlbumSearchLookupQuery, AlbumSearchResult,
    LookupStatus,
};
use album_lookup::repository::{AggregatedStatus, AlbumSearchLookupRepository};
use album_lookup::Error;

fn query(artist: &str, album: &str) -> AlbumSearchLookupQuery {
    AlbumSearchLookupQuery::new(album.to_string(), artist.to_string())
}

fn parsed_lookup(artist: &str, album: &str, file: &str) -> AlbumSearchLookup {
    let q = query(artist, album);
    let result = AlbumSearchResult {
        album_name: q.album_name().clone(),
        artist_name: q.artist_name().clone(),
        file_name: FileName::parse(file.to_string()).unwrap(),
    };
    AlbumSearchLookup::new(q).with_parsed(result)
}

#[test]
fn normalization_lowercases_names() {
    let q = query("Radiohead", "OK Computer");
    assert_eq!(q.artist_name().as_str(), "radiohead");
    assert_eq!(q.album_name().as_str(), "ok computer");
}

#[test]
fn correlation_id_exact_value() {
    let q = query("Artist", "Album");
    assert_eq!(
        get_album_search_correlation_id(&q).as_str(),
        "lookup:album_search:artist:album"
    );
}

#[test]
fn correlation_id_deterministic_under_case_variation() {
    let a = query("Radiohead", "OK Computer");
    let b = query("RADIOHEAD", "ok computer");
    assert_eq!(a, b);
    assert_eq!(
        get_album_search_correlation_id(&a),
        get_album_search_correlation_id(&b)
    );
}

#[test]
fn lookup_transitions_keep_query() {
    let lookup = AlbumSearchLookup::new(query("a", "b"));
    assert_eq!(lookup.status(), LookupStatus::Started);
    let errored = lookup.with_error("boom".to_string());
    assert_eq!(errored.status(), LookupStatus::Errored);
    assert_eq!(*errored.query(), query("a", "b"));
    let not_found = errored.with_not_found();
    assert_eq!(not_found.status(), LookupStatus::AlbumNotFound);
    let parsed = parsed_lookup("a", "b", "release/b");
    assert_eq!(parsed.status(), LookupStatus::AlbumParsed);
    assert_eq!(*parsed.query(), query("a", "b"));
}

#[test]
fn search_album_is_idempotent_and_publishes_once() {
    let mut interactor = LookupInteractor::new();
    let first = interactor
        .search_album("Artist".to_string(), "Album".to_string())
        .unwrap();
    assert_eq!(first.status(), LookupStatus::Started);
    assert_eq!(interactor.event_publisher.lookup_log.len(), 1);

    let second = interactor
        .search_album("ARTIST".to_string(), "album".to_string())
        .unwrap();
    assert_eq!(*second.query(), *first.query());
    // No second event for a repeated search.
    assert_eq!(interactor.event_publisher.lookup_log.len(), 1);
}

#[test]
fn search_album_event_carries_correlation_id() {
    let mut interactor = LookupInteractor::new();
    interactor
        .search_album("Artist".to_string(), "Album".to_string())
        .unwrap();
    let payload = interactor.event_publisher.lookup_log.read(0);
    assert_eq!(
        payload.correlation_id.as_ref().unwrap().as_str(),
        "lookup:album_search:artist:album"
    );
    assert!(payload.metadata.is_none());
}

#[test]
fn find_many_preserves_order_and_cardinality() {
    let mut repo = AlbumSearchLookupRepository::new();
    let q1 = query("one", "x");
    let q2 = query("two", "y");
    let q3 = query("three", "z");
    repo.put(&AlbumSearchLookup::new(q2.clone())).unwrap();

    let slots = repo.find_many(vec![&q1, &q2, &q3]).unwrap();
    assert_eq!(slots.len(), 3);
    assert!(slots[0].is_none());
    assert_eq!(*slots[1].as_ref().unwrap().query(), q2);
    assert!(slots[2].is_none());
}

#[test]
fn get_absent_is_not_found() {
    let interactor = LookupInteractor::new();
    let err = interactor
        .get_album_search_lookup(&query("a", "b"))
        .unwrap_err();
    assert_eq!(err, Error::NotFound);
    assert_eq!(err.name(), "not found");
}

#[test]
fn put_overwrites_by_query_identity() {
    let mut repo = AlbumSearchLookupRepository::new();
    let q = query("a", "b");
    repo.put(&AlbumSearchLookup::new(q.clone())).unwrap();
    repo.put(&AlbumSearchLookup::new(q.clone()).with_error("late".to_string()))
        .unwrap();
    let stored = repo.get(&q).unwrap();
    assert_eq!(stored.status(), LookupStatus::Errored);
    let statuses = repo.aggregate_statuses().unwrap();
    assert_eq!(
        statuses,
        vec![AggregatedStatus { status: LookupStatus::Errored, count: 1 }]
    );
}

#[test]
fn secondary_index_finds_parsed_lookups() {
    let mut repo = AlbumSearchLookupRepository::new();
    let file = FileName::parse("release/album-of-a".to_string()).unwrap();
    repo.put(&parsed_lookup("a", "x", "release/album-of-a")).unwrap();
    repo.put(&AlbumSearchLookup::new(query("b", "y"))).unwrap();

    let found = repo.find_many_by_album_file_name(&file).unwrap();
    assert_eq!(found.len(), 1);
    assert_eq!(*found[0].query(), query("a", "x"));

    // A lookup that never reached AlbumParsed is absent.
    for lookup in &found {
        assert_ne!(*lookup.query(), query("b", "y"));
    }
}

#[test]
fn aggregate_statuses_counts_by_state() {
    let mut repo = AlbumSearchLookupRepository::new();
    for artist in ["s1", "s2", "s3"] {
        repo.put(&AlbumSearchLookup::new(query(artist, "x"))).unwrap();
    }
    repo.put(&parsed_lookup("p1", "x", "release/x1")).unwrap();
    repo.put(&parsed_lookup("p2", "x", "release/x2")).unwrap();
    repo.put(&AlbumSearchLookup::new(query("e1", "x")).with_error("nope".to_string()))
        .unwrap();

    let statuses = repo.aggregate_statuses().unwrap();
    assert_eq!(
        statuses,
        vec![
            AggregatedStatus { status: LookupStatus::Started, count: 3 },
            AggregatedStatus { status: LookupStatus::AlbumParsed, count: 2 },
            AggregatedStatus { status: LookupStatus::Errored, count: 1 },
        ]
    );
}

#[test]
fn interactor_passes_batch_and_reverse_reads_through() {
    let mut interactor = LookupInteractor::new();
    interactor
        .put_album_search_lookup(&parsed_lookup("a", "b", "release/ab"))
        .unwrap();
    let file = FileName::parse("release/ab".to_string()).unwrap();
    let by_file = interactor
        .find_many_album_search_lookups_by_album_file_name(&file)
        .unwrap();
    assert_eq!(by_file.len(), 1);

    let q = query("a", "b");
    let slots = interactor.find_many_album_search_lookups(vec![&q]).unwrap();
    assert_eq!(slots.len(), 1);
    assert_eq!(slots[0].as_ref().unwrap().status(), LookupStatus::AlbumParsed);

    let found = interactor.find_album_search_lookup(&q).unwrap();
    assert!(found.is_some());
    // A direct put publishes nothing: only a search miss does.
    assert_eq!(interactor.event_publisher.lookup_log.len(), 0);
}
