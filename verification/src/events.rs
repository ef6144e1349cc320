//! The event catalog and envelope, the ordered per-topic log the broker
//! keeps, and the publisher that appends to it. An envelope is immutable
//! once appended; entries of one topic are totally ordered by append
//! order and are never lost.

use crate::files::FileName;
use crate::lookup::{AlbumSearchLookup, LookupView};
use crate::Error;
use vstd::prelude::*;

verus! {

/// The named stream topics.
#[derive(Clone, Copy, Debug, PartialEq, Eq, Structural)]
pub enum Stream {
    Lookup,
    Parser,
}

/// The closed union of domain event kinds carried on the streams.
#[derive(Debug)]
pub enum Event {
    /// A lookup was created or advanced.
    LookupAlbumSearchUpdated { lookup: AlbumSearchLookup },
    /// A crawled document finished parsing (owned by the parser
    /// subsystem; carried here so one stream can hold both kinds).
    FileParsed { file_name: FileName },
}

/// The mathematical content of an event.
pub ghost enum EventView {
    LookupAlbumSearchUpdated { lookup: LookupView },
    FileParsed { file_name: Seq<char> },
}

impl View for Event {
    type V = EventView;

    open spec fn view(&self) -> EventView {
        match self {
            Event::LookupAlbumSearchUpdated { lookup } => {
                EventView::LookupAlbumSearchUpdated { lookup: lookup@ }
            },
            Event::FileParsed { file_name } => EventView::FileParsed { file_name: file_name@ },
        }
    }
}

impl Clone for Event {
    fn clone(&self) -> (r: Self)
        ensures
            r@ == self@,
    {
        match self {
            Event::LookupAlbumSearchUpdated { lookup } => {
                Event::LookupAlbumSearchUpdated { lookup: lookup.clone() }
            },
            Event::FileParsed { file_name } => Event::FileParsed { file_name: file_name.clone() },
        }
    }
}

/// The unit appended to a stream: one event plus routing metadata.
#[derive(Debug)]
pub struct EventPayload {
    pub event: Event,
    pub correlation_id: Option<String>,
    pub metadata: Option<Vec<(String, String)>>,
}

/// The mathematical content of a metadata pair list.
pub open spec fn pairs_view(s: Seq<(String, String)>) -> Seq<(Seq<char>, Seq<char>)> {
    s.map_values(|p: (String, String)| (p.0@, p.1@))
}

/// The mathematical content of an envelope.
pub ghost struct PayloadView {
    pub event: EventView,
    pub correlation_id: Option<Seq<char>>,
    pub metadata: Option<Seq<(Seq<char>, Seq<char>)>>,
}

impl View for EventPayload {
    type V = PayloadView;

    open spec fn view(&self) -> PayloadView {
        PayloadView {
            event: self.event@,
            correlation_id: match self.correlation_id {
                Some(ref c) => Some(c@),
                None => None,
            },
            metadata: match self.metadata {
                Some(ref m) => Some(pairs_view(m@)),
                None => None,
            },
        }
    }
}

impl Clone for EventPayload {
    fn clone(&self) -> (r: Self)
        ensures
            r@ == self@,
    {
        let correlation_id = match &self.correlation_id {
            Some(c) => Some(c.clone()),
            None => None,
        };
        let metadata = match &self.metadata {
            Some(m) => {
                let mut pairs: Vec<(String, String)> = Vec::new();
                let mut i: usize = 0;
                while i < m.len()
                    invariant
                        i <= m.len(),
                        pairs@.len() == i,
                        pairs_view(pairs@) == pairs_view(m@.subrange(0, i as int)),
                    decreases m.len() - i,
                {
                    let key = m[i].0.clone();
                    let value = m[i].1.clone();
                    let ghost prev = pairs@;
                    pairs.push((key, value));
                    proof {
                        assert(pairs@[i as int] == (key, value));
                        assert(pairs_view(pairs@)[i as int] == (m@[i as int].0@, m@[i as int].1@));
                        assert forall|j: int| 0 <= j < i implies pairs_view(pairs@)[j]
                            == pairs_view(m@.subrange(0, i + 1))[j] by {
                            assert(pairs@[j] == prev[j]);
                            assert(pairs_view(prev)[j] == pairs_view(m@.subrange(0, i as int))[j]);
                            assert(m@.subrange(0, i as int)[j] == m@[j]);
                            assert(m@.subrange(0, i + 1)[j] == m@[j]);
                        }
                        assert(pairs_view(pairs@) =~= pairs_view(m@.subrange(0, i + 1)));
                    }
                    i = i + 1;
                }
                proof {
                    assert(m@.subrange(0, m@.len() as int) =~= m@);
                    assert(pairs_view(pairs@) == pairs_view(m@));
                }
                Some(pairs)
            },
            None => None,
        };
        let r = EventPayload { event: self.event.clone(), correlation_id, metadata };
        proof {
            assert(r@.metadata == self@.metadata);
        }
        r
    }
}

/// One topic's durable, append-ordered entry log. An entry's identifier
/// is its position in append order.
#[derive(Debug)]
pub struct EventLog {
    entries: Vec<EventPayload>,
}

impl View for EventLog {
    type V = Seq<PayloadView>;

    closed spec fn view(&self) -> Seq<PayloadView> {
        self.entries@.map_values(|p: EventPayload| p@)
    }
}

impl EventLog {
    /// An empty topic.
    pub fn new() -> (r: Self)
        ensures
            r@ == Seq::<PayloadView>::empty(),
    {
        let r = EventLog { entries: Vec::new() };
        proof {
            assert(r@ =~= Seq::<PayloadView>::empty());
        }
        r
    }

    /// Durable ordered append; returns the new entry's identifier.
    pub fn append(&mut self, payload: EventPayload) -> (id: usize)
        ensures
            final(self)@ == old(self)@.push(payload@),
            id == old(self)@.len(),
    {
        let id = self.entries.len();
        self.entries.push(payload);
        proof {
            assert(self@ =~= old(self)@.push(payload@));
        }
        id
    }

    /// How many entries the topic holds.
    pub fn len(&self) -> (n: usize)
        ensures
            n == self@.len(),
    {
        self.entries.len()
    }

    /// Reads the entry with a given identifier; appended entries are
    /// never lost, so every identifier below the length is present.
    pub fn read(&self, id: usize) -> (r: &EventPayload)
        requires
            id < self@.len(),
        ensures
            r@ == self@[id as int],
    {
        &self.entries[id]
    }
}

/// Appends envelopes to named streams: one durable append per publish,
/// no deduplication at this layer.
#[derive(Debug)]
pub struct EventPublisher {
    pub lookup_log: EventLog,
    pub parser_log: EventLog,
}

impl EventPublisher {
    /// The entries so far appended to one stream.
    pub open spec fn log_of(&self, stream: Stream) -> Seq<PayloadView> {
        match stream {
            Stream::Lookup => self.lookup_log@,
            Stream::Parser => self.parser_log@,
        }
    }

    /// A publisher over empty streams.
    pub fn new() -> (r: Self)
        ensures
            r.log_of(Stream::Lookup) == Seq::<PayloadView>::empty(),
            r.log_of(Stream::Parser) == Seq::<PayloadView>::empty(),
    {
        EventPublisher { lookup_log: EventLog::new(), parser_log: EventLog::new() }
    }

    /// One durable append of the envelope to the named stream; every
    /// other stream is untouched. A failed append would propagate as a
    /// hard error, never silently drop the envelope.
    pub fn publish(&mut self, stream: Stream, payload: EventPayload) -> (r: Result<(), Error>)
        ensures
            r == Ok::<(), Error>(()),
            final(self).log_of(stream) == old(self).log_of(stream).push(payload@),
            forall|other: Stream|
                other != stream ==> final(self).log_of(other) == old(self).log_of(other),
    {
        match stream {
            Stream::Lookup => {
                self.lookup_log.append(payload);
            },
            Stream::Parser => {
                self.parser_log.append(payload);
            },
        }
        Ok(())
    }
}

} // verus!
