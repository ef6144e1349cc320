use album_lookup::events::{Event, EventLog, EventPayload, EventPublisher, Stream};
use album_lookup::files::{filter_valid_file_names, FileName};
use album_lookup::lookup::{AlbumSearchLookup, AlbumSearchLookupQuery, AlbumSearchResult};
use album_lookup::profile::{
    build_spotify_import_event_subscribers, process_lookup_subscriptions, SpotifyImportSubscription,
    SubscriptionAction,
};
use album_lookup::subscriber::{ConsumerGroup, EventSubscriber};
use album_lookup::Error;

fn query(artist: &str, album: &str) -> AlbumSearchLookupQuery {
    AlbumSearchLookupQuery::new(album.to_string(), artist.to_string())
}

fn payload_for(lookup: AlbumSearchLookup) -> EventPayload {
    EventPayload {
        event: Event::LookupAlbumSearchUpdated { lookup },
        correlation_id: None,
        metadata: None,
    }
}

fn filled_log(entries: usize) -> EventLog {
    let mut log = EventLog::new();
    for i in 0..entries {
        log.append(payload_for(AlbumSearchLookup::new(query(&format!("artist{i}"), "x"))));
    }
    log
}

#[test]
fn file_name_accepts_known_prefixes() {
    assert!(FileName::parse("release/some-album".to_string()).is_ok());
    assert!(FileName::parse("charts/top".to_string()).is_ok());
    assert!(FileName::parse("artist/someone".to_string()).is_ok());
    let f = FileName::parse("release/some-album".to_string()).unwrap();
    assert_eq!(f.raw(), "release/some-album");
}

#[test]
fn file_name_rejects_malformed_names() {
    assert_eq!(
        FileName::parse("bogus".to_string()).unwrap_err(),
        Error::InvalidIdentifier
    );
    // A bare prefix with nothing after it names no artifact.
    assert_eq!(
        FileName::parse("release/".to_string()).unwrap_err(),
        Error::InvalidIdentifier
    );
    assert_eq!(
        FileName::parse("".to_string()).unwrap_err(),
        Error::InvalidIdentifier
    );
}

#[test]
fn listing_scan_skips_invalid_names() {
    let names = vec![
        "release/a".to_string(),
        "junk".to_string(),
        "charts/b".to_string(),
        "artist/".to_string(),
        "artist/c".to_string(),
    ];
    let valid = filter_valid_file_names(names);
    let raw: Vec<&str> = valid.iter().map(|f| f.raw()).collect();
    assert_eq!(raw, vec!["release/a", "charts/b", "artist/c"]);
}

#[test]
fn publisher_appends_to_the_named_stream_only() {
    let mut publisher = EventPublisher::new();
    publisher
        .publish(Stream::Lookup, payload_for(AlbumSearchLookup::new(query("a", "b"))))
        .unwrap();
    assert_eq!(publisher.lookup_log.len(), 1);
    assert_eq!(publisher.parser_log.len(), 0);
}

#[test]
fn read_group_delivers_in_append_order_and_acks_once() {
    let log = filled_log(5);
    let mut group = ConsumerGroup::new();

    let first = group.read_group(&log, 100, 3);
    let ids: Vec<usize> = first.iter().map(|(id, _)| *id).collect();
    assert_eq!(ids, vec![0, 1, 2]);

    let second = group.read_group(&log, 100, 10);
    let ids: Vec<usize> = second.iter().map(|(id, _)| *id).collect();
    assert_eq!(ids, vec![3, 4]);

    assert!(group.read_group(&log, 100, 10).is_empty());

    // An entry is acknowledged at most once.
    assert!(group.ack(1));
    assert!(!group.ack(1));
}

#[test]
fn concurrency_ceiling_is_never_exceeded() {
    let log = filled_log(5);
    let mut sub = EventSubscriber::new("ceiling".to_string(), Stream::Lookup, 2);

    let first = sub.poll_next(&log, 100, 10);
    let second = sub.poll_next(&log, 100, 10);
    assert_eq!(first.unwrap().0, 0);
    assert_eq!(second.unwrap().0, 1);

    // With two handlers in flight every slot is taken, though three
    // entries are still unread.
    assert!(sub.poll_next(&log, 100, 10).is_none());

    // Freeing one slot lets exactly one more dispatch through.
    sub.complete(0, true);
    let third = sub.poll_next(&log, 100, 10);
    assert_eq!(third.unwrap().0, 2);
    assert!(sub.poll_next(&log, 100, 10).is_none());
}

#[test]
fn failed_handler_gets_redelivery_and_single_ack() {
    let log = filled_log(1);
    let mut sub = EventSubscriber::new("retry".to_string(), Stream::Lookup, 1);

    let (id, _) = sub.poll_next(&log, 100, 50).unwrap();
    assert_eq!(id, 0);

    // First invocation fails: no acknowledgment, the entry stays pending.
    let acked = sub.complete(id, false);
    assert!(!acked);

    // Before the idle threshold nothing is redelivered.
    assert!(sub.poll_next(&log, 120, 50).is_none());

    // Once stale, the same entry is delivered again.
    let (again, _) = sub.poll_next(&log, 160, 50).unwrap();
    assert_eq!(again, 0);

    // The retry succeeds: acknowledged exactly once, never seen again.
    let acked = sub.complete(again, true);
    assert!(acked);
    assert!(sub.poll_next(&log, 1000, 50).is_none());
}

#[test]
fn handler_plans_fulfillment_for_parsed_lookup() {
    let q = query("a", "b");
    let result = AlbumSearchResult {
        album_name: "b".to_string(),
        artist_name: "a".to_string(),
        file_name: FileName::parse("release/ab".to_string()).unwrap(),
    };
    let payload = payload_for(AlbumSearchLookup::new(q.clone()).with_parsed(result));
    let subscriptions = vec![
        SpotifyImportSubscription { profile_id: "alice".to_string(), factor: 3 },
        SpotifyImportSubscription { profile_id: "bob".to_string(), factor: 1 },
    ];

    let actions = process_lookup_subscriptions(&payload, &subscriptions);
    assert_eq!(actions.len(), 4);
    match &actions[0] {
        SubscriptionAction::AddAlbumToProfile { profile_id, file_name, factor } => {
            assert_eq!(profile_id.as_str(), "alice");
            assert_eq!(file_name.raw(), "release/ab");
            assert_eq!(*factor, 3);
        }
        other => panic!("expected an attach action, got {other:?}"),
    }
    match &actions[1] {
        SubscriptionAction::RemoveSubscription { profile_id, query } => {
            assert_eq!(profile_id.as_str(), "alice");
            assert_eq!(*query, AlbumSearchLookupQuery::new("b".to_string(), "a".to_string()));
        }
        other => panic!("expected a removal action, got {other:?}"),
    }
    match &actions[2] {
        SubscriptionAction::AddAlbumToProfile { profile_id, .. } => {
            assert_eq!(profile_id.as_str(), "bob");
        }
        other => panic!("expected an attach action, got {other:?}"),
    }
}

#[test]
fn handler_ignores_irrelevant_events() {
    let subscriptions = vec![SpotifyImportSubscription {
        profile_id: "alice".to_string(),
        factor: 1,
    }];
    let started = payload_for(AlbumSearchLookup::new(query("a", "b")));
    assert!(process_lookup_subscriptions(&started, &subscriptions).is_empty());

    let parse_event = EventPayload {
        event: Event::FileParsed {
            file_name: FileName::parse("release/x".to_string()).unwrap(),
        },
        correlation_id: None,
        metadata: None,
    };
    assert!(process_lookup_subscriptions(&parse_event, &subscriptions).is_empty());
}

#[test]
fn import_subscribers_are_built_with_their_group() {
    let subscribers = build_spotify_import_event_subscribers();
    assert_eq!(subscribers.len(), 1);
    assert_eq!(subscribers[0].id.as_str(), "profile_spotify_import");
    assert_eq!(subscribers[0].stream, Stream::Lookup);
}

#[test]
fn envelope_metadata_round_trips_through_clone() {
    let payload = EventPayload {
        event: Event::FileParsed {
            file_name: FileName::parse("charts/top".to_string()).unwrap(),
        },
        correlation_id: Some("corr".to_string()),
        metadata: Some(vec![("source".to_string(), "crawler".to_string())]),
    };
    let copy = payload.clone();
    assert_eq!(copy.correlation_id.as_deref(), Some("corr"));
    let metadata = copy.metadata.unwrap();
    assert_eq!(metadata.len(), 1);
    assert_eq!(metadata[0].0.as_str(), "source");
    assert_eq!(metadata[0].1.as_str(), "crawler");
}
