//! The consumer-group subscriber runtime: claims unacknowledged entries,
//! bounds in-flight handler work by a concurrency limit, and acknowledges
//! an entry only after its handler succeeded. A failed handler leaves its
//! entry pending, so it is redelivered once it has sat idle long enough:
//! delivery is at-least-once, and handlers must be idempotent.

use crate::events::{EventLog, EventPayload, Stream};
use vstd::prelude::*;

verus! {

/// One unacknowledged delivery: which entry, when it was last handed to
/// a consumer, and how often it has been delivered.
#[derive(Clone, Copy, Debug, PartialEq, Eq, Structural)]
pub struct PendingEntry {
    pub entry_id: usize,
    pub last_delivered_at: u64,
    pub delivery_count: u64,
}

/// An entry that has sat unacknowledged for at least `min_idle` ticks is
/// eligible for reclamation.
pub open spec fn stale(p: PendingEntry, now: u64, min_idle: u64) -> bool {
    p.last_delivered_at + min_idle <= now
}

/// Some pending entry is eligible for reclamation.
pub open spec fn exists_stale(s: Seq<PendingEntry>, now: u64, min_idle: u64) -> bool {
    exists|i: int| 0 <= i < s.len() && stale(#[trigger] s[i], now, min_idle)
}

/// The entry is among the unacknowledged ones.
pub open spec fn has_pending(s: Seq<PendingEntry>, id: int) -> bool {
    exists|i: int| 0 <= i < s.len() && (#[trigger] s[i]).entry_id == id
}

/// The pending list after acknowledging one entry.
pub open spec fn remove_id(s: Seq<PendingEntry>, id: int) -> Seq<PendingEntry>
    decreases s.len(),
{
    if s.len() == 0 {
        Seq::empty()
    } else {
        let rest = remove_id(s.drop_last(), id);
        if s.last().entry_id == id {
            rest
        } else {
            rest.push(s.last())
        }
    }
}

/// A redelivery: the entry is handed out again now, with its delivery
/// count raised (saturating, so the record never overflows).
pub open spec fn bump(p: PendingEntry, now: u64) -> PendingEntry {
    PendingEntry {
        entry_id: p.entry_id,
        last_delivered_at: now,
        delivery_count: if p.delivery_count == u64::MAX {
            p.delivery_count
        } else {
            (p.delivery_count + 1) as u64
        },
    }
}

/// Acknowledging an entry settles it for good: it is no longer pending,
/// acknowledging it again changes nothing, and acknowledging an absent
/// entry changes nothing — an entry is acknowledged at most once.
pub proof fn lemma_ack_settles(s: Seq<PendingEntry>, id: int)
    ensures
        !has_pending(remove_id(s, id), id),
        remove_id(remove_id(s, id), id) == remove_id(s, id),
        !has_pending(s, id) ==> remove_id(s, id) == s,
    decreases s.len(),
{
    if s.len() > 0 {
        lemma_ack_settles(s.drop_last(), id);
        if !has_pending(s, id) {
            assert(s.last().entry_id != id);
            assert(forall|i: int|
                0 <= i < s.len() - 1 ==> (#[trigger] s.drop_last()[i]).entry_id != id);
            assert(!has_pending(s.drop_last(), id));
            assert(remove_id(s, id) =~= s);
        }
        let r = remove_id(s, id);
        assert forall|i: int| 0 <= i < r.len() implies (#[trigger] r[i]).entry_id != id by {
            let r0 = remove_id(s.drop_last(), id);
            if s.last().entry_id != id && i == r.len() - 1 {
            } else {
                assert(r[i] == r0[i]);
            }
        }
        lemma_remove_absent(r, id);
    }
}

/// Removing an identifier that no entry carries changes nothing.
proof fn lemma_remove_absent(s: Seq<PendingEntry>, id: int)
    requires
        forall|i: int| 0 <= i < s.len() ==> (#[trigger] s[i]).entry_id != id,
    ensures
        remove_id(s, id) == s,
    decreases s.len(),
{
    if s.len() > 0 {
        assert(forall|i: int|
            0 <= i < s.len() - 1 ==> (#[trigger] s.drop_last()[i]).entry_id != id);
        lemma_remove_absent(s.drop_last(), id);
        assert(remove_id(s, id) =~= s);
    }
}

/// A consumer group's cursor and acknowledgment state over one topic:
/// which entries were handed out and not yet acknowledged, and how far
/// fresh reading has advanced. The group owns only this state, never the
/// entries themselves.
#[derive(Debug)]
pub struct ConsumerGroup {
    cursor: usize,
    pending: Vec<PendingEntry>,
}

impl ConsumerGroup {
    /// The next fresh entry to deliver.
    pub closed spec fn cursor_ix(&self) -> int {
        self.cursor as int
    }

    /// The deliveries not yet acknowledged.
    pub closed spec fn pending_seq(&self) -> Seq<PendingEntry> {
        self.pending@
    }

    /// Pending entries were all handed out (they lie below the cursor)
    /// and no entry is tracked twice.
    pub open spec fn wf(&self) -> bool {
        &&& (forall|i: int|
            0 <= i < self.pending_seq().len() ==> (#[trigger] self.pending_seq()[i]).entry_id
                < self.cursor_ix())
        &&& (forall|i: int, j: int|
            0 <= i < j < self.pending_seq().len() ==> (#[trigger] self.pending_seq()[i]).entry_id
                != (#[trigger] self.pending_seq()[j]).entry_id)
    }

    /// Joins the group at the start of the topic.
    pub fn new() -> (r: Self)
        ensures
            r.wf(),
            r.cursor_ix() == 0,
            r.pending_seq() == Seq::<PendingEntry>::empty(),
    {
        ConsumerGroup { cursor: 0, pending: Vec::new() }
    }

    /// Reads up to `max_count` fresh entries, in stream order, handing
    /// each out as a new unacknowledged delivery made now. Returns fewer
    /// only when the topic has no more entries.
    pub fn read_group(&mut self, log: &EventLog, now: u64, max_count: usize) -> (batch: Vec<
        (usize, EventPayload),
    >)
        requires
            old(self).wf(),
            old(self).cursor_ix() <= log@.len(),
        ensures
            final(self).wf(),
            final(self).cursor_ix() == old(self).cursor_ix() + batch@.len(),
            final(self).cursor_ix() <= log@.len(),
            batch@.len() == if max_count as int <= log@.len() - old(self).cursor_ix() {
                max_count as int
            } else {
                log@.len() - old(self).cursor_ix()
            },
            forall|k: int|
                0 <= k < batch@.len() ==> (#[trigger] batch@[k]).0 == old(self).cursor_ix() + k
                    && batch@[k].1@ == log@[old(self).cursor_ix() + k],
            final(self).pending_seq() == old(self).pending_seq() + Seq::new(
                batch@.len() as nat,
                |k: int|
                    PendingEntry {
                        entry_id: (old(self).cursor_ix() + k) as usize,
                        last_delivered_at: now,
                        delivery_count: 1,
                    },
            ),
    {
        let mut batch: Vec<(usize, EventPayload)> = Vec::new();
        let mut taken: usize = 0;
        while taken < max_count && self.cursor < log.len()
            invariant
                old(self).wf(),
                old(self).cursor_ix() <= log@.len(),
                taken <= max_count,
                taken == batch@.len(),
                self.cursor_ix() == old(self).cursor_ix() + taken,
                self.cursor_ix() <= log@.len(),
                forall|k: int|
                    0 <= k < taken ==> (#[trigger] batch@[k]).0 == old(self).cursor_ix() + k
                        && batch@[k].1@ == log@[old(self).cursor_ix() + k],
                self.pending_seq() == old(self).pending_seq() + Seq::new(
                    taken as nat,
                    |k: int|
                        PendingEntry {
                            entry_id: (old(self).cursor_ix() + k) as usize,
                            last_delivered_at: now,
                            delivery_count: 1,
                        },
                ),
                self.wf(),
            decreases log@.len() - self.cursor_ix(),
        {
            let ghost pre = self.pending_seq();
            let id = self.cursor;
            let payload = log.read(id).clone();
            self.pending.push(
                PendingEntry { entry_id: id, last_delivered_at: now, delivery_count: 1 },
            );
            self.cursor = id + 1;
            batch.push((id, payload));
            taken = taken + 1;
            proof {
                assert(self.pending_seq() == pre.push(
                    PendingEntry { entry_id: id, last_delivered_at: now, delivery_count: 1 },
                ));
                assert(self.pending_seq() =~= old(self).pending_seq() + Seq::new(
                    taken as nat,
                    |k: int|
                        PendingEntry {
                            entry_id: (old(self).cursor_ix() + k) as usize,
                            last_delivered_at: now,
                            delivery_count: 1,
                        },
                ));
                assert forall|w: int|
                    0 <= w < self.pending_seq().len() implies (
                #[trigger] self.pending_seq()[w]).entry_id < self.cursor_ix() by {
                    if w < pre.len() {
                        assert(self.pending_seq()[w] == pre[w]);
                    }
                }
                assert forall|w1: int, w2: int|
                    0 <= w1 < w2 < self.pending_seq().len() implies (
                #[trigger] self.pending_seq()[w1]).entry_id != (
                #[trigger] self.pending_seq()[w2]).entry_id by {
                    assert(self.pending_seq()[w1] == pre[w1]);
                    if w2 < self.pending_seq().len() - 1 {
                        assert(self.pending_seq()[w2] == pre[w2]);
                    } else {
                        assert(pre[w1].entry_id < id as int);
                    }
                }
                assert(self.wf());
            }
        }
        batch
    }

    /// Acknowledges one entry: it leaves the pending list and is never
    /// redelivered. Reports whether the entry was still pending.
    pub fn ack(&mut self, entry_id: usize) -> (acked: bool)
        requires
            old(self).wf(),
        ensures
            final(self).wf(),
            final(self).cursor_ix() == old(self).cursor_ix(),
            final(self).pending_seq() == remove_id(old(self).pending_seq(), entry_id as int),
            acked == has_pending(old(self).pending_seq(), entry_id as int),
    {
        let ghost s = self.pending@;
        let mut kept: Vec<PendingEntry> = Vec::new();
        let mut acked = false;
        let n = self.pending.len();
        let mut i: usize = 0;
        while i < n
            invariant
                n == self.pending.len(),
                i <= n,
                s == self.pending@,
                *self == *old(self),
                old(self).wf(),
                kept@ == remove_id(s.subrange(0, i as int), entry_id as int),
                acked == has_pending(s.subrange(0, i as int), entry_id as int),
            decreases n - i,
        {
            let ghost prefix = s.subrange(0, i as int);
            proof {
                assert(s.subrange(0, i + 1).drop_last() =~= prefix);
                assert(s.subrange(0, i + 1).last() == s[i as int]);
            }
            let entry = self.pending[i];
            if entry.entry_id == entry_id {
                acked = true;
                proof {
                    assert(s.subrange(0, i + 1)[i as int].entry_id == entry_id as int);
                    assert(has_pending(s.subrange(0, i + 1), entry_id as int));
                }
            } else {
                kept.push(entry);
                proof {
                    if has_pending(prefix, entry_id as int) {
                        let w = choose|w: int|
                            0 <= w < prefix.len() && (#[trigger] prefix[w]).entry_id
                                == entry_id as int;
                        assert(s.subrange(0, i + 1)[w].entry_id == entry_id as int);
                        assert(has_pending(s.subrange(0, i + 1), entry_id as int));
                    } else {
                        assert forall|w: int| 0 <= w < i + 1 implies (#[trigger] s.subrange(
                            0,
                            i + 1,
                        )[w]).entry_id != entry_id as int by {
                            if w < i {
                                assert(prefix[w].entry_id != entry_id as int);
                            }
                        }
                    }
                }
            }
            i = i + 1;
        }
        proof {
            assert(s.subrange(0, n as int) =~= s);
        }
        self.pending = kept;
        proof {
            assert forall|w: int| 0 <= w < s.len() implies (#[trigger] s[w]).entry_id < old(
                self,
            ).cursor_ix() by {
                assert(old(self).pending_seq()[w] == s[w]);
            }
            assert forall|w1: int, w2: int| 0 <= w1 < w2 < s.len() implies (
            #[trigger] s[w1]).entry_id != (#[trigger] s[w2]).entry_id by {
                assert(old(self).pending_seq()[w1] == s[w1]);
                assert(old(self).pending_seq()[w2] == s[w2]);
            }
            lemma_remove_id_wf(s, entry_id as int, old(self).cursor_ix());
            assert(self.pending_seq() == remove_id(s, entry_id as int));
        }
        acked
    }
}

/// Removal preserves the group's well-formedness bounds.
proof fn lemma_remove_id_wf(s: Seq<PendingEntry>, id: int, cursor: int)
    requires
        forall|i: int| 0 <= i < s.len() ==> (#[trigger] s[i]).entry_id < cursor,
        forall|i: int, j: int|
            0 <= i < j < s.len() ==> (#[trigger] s[i]).entry_id != (#[trigger] s[j]).entry_id,
    ensures
        forall|i: int| 0 <= i < remove_id(s, id).len() ==> (#[trigger] remove_id(s, id)[i]).entry_id
            < cursor,
        forall|i: int, j: int|
            0 <= i < j < remove_id(s, id).len() ==> (#[trigger] remove_id(s, id)[i]).entry_id != (
            #[trigger] remove_id(s, id)[j]).entry_id,
        forall|i: int| 0 <= i < remove_id(s, id).len() ==> exists|w: int|
            0 <= w < s.len() && s[w] == #[trigger] remove_id(s, id)[i],
    decreases s.len(),
{
    if s.len() > 0 {
        let s0 = s.drop_last();
        assert(forall|i: int| 0 <= i < s0.len() ==> s0[i] == s[i]);
        lemma_remove_id_wf(s0, id, cursor);
        let r = remove_id(s, id);
        let r0 = remove_id(s0, id);
        assert forall|i: int| 0 <= i < r.len() implies exists|w: int|
            0 <= w < s.len() && s[w] == #[trigger] r[i] by {
            if s.last().entry_id != id && i == r.len() - 1 {
                assert(s[s.len() - 1] == r[i]);
            } else {
                assert(r[i] == r0[i]);
                let w = choose|w: int| 0 <= w < s0.len() && s0[w] == r0[i];
                assert(s[w] == r[i]);
            }
        }
        assert forall|i: int, j: int| 0 <= i < j < r.len() implies (#[trigger] r[i]).entry_id != (
        #[trigger] r[j]).entry_id by {
            if s.last().entry_id != id && j == r.len() - 1 {
                assert(r[i] == r0[i]);
                let w = choose|w: int| 0 <= w < s0.len() && s0[w] == r0[i];
                assert(s[w].entry_id != s[s.len() - 1].entry_id);
            } else {
                assert(r[i] == r0[i] && r[j] == r0[j]);
            }
        }
        assert forall|i: int| 0 <= i < r.len() implies (#[trigger] r[i]).entry_id < cursor by {
            if s.last().entry_id != id && i == r.len() - 1 {
            } else {
                assert(r[i] == r0[i]);
            }
        }
    }
}

/// The claim a `poll_next` redelivery makes: the first reclaim-eligible
/// pending entry was handed out again, its record refreshed in place.
pub open spec fn claimed_at(
    pre: Seq<PendingEntry>,
    post: Seq<PendingEntry>,
    i: int,
    id: int,
    now: u64,
    min_idle: u64,
) -> bool {
    &&& 0 <= i < pre.len()
    &&& stale(pre[i], now, min_idle)
    &&& (forall|j: int| 0 <= j < i ==> !stale(#[trigger] pre[j], now, min_idle))
    &&& id == pre[i].entry_id
    &&& post == pre.update(i, bump(pre[i], now))
}

/// An acknowledged entry is never delivered again: every delivery is
/// either a reclaimed still-pending entry or the fresh entry at the
/// cursor, and an entry that left the pending list below the cursor is
/// neither.
pub proof fn lemma_acked_entry_not_redelivered(
    pre: Seq<PendingEntry>,
    post: Seq<PendingEntry>,
    i: int,
    id: int,
    cursor: int,
    e: int,
    now: u64,
    min_idle: u64,
)
    requires
        !has_pending(pre, e),
        e < cursor,
        claimed_at(pre, post, i, id, now, min_idle) || id == cursor,
    ensures
        id != e,
{
    if claimed_at(pre, post, i, id, now, min_idle) {
        if id == e {
            assert(pre[i].entry_id == e);
            assert(has_pending(pre, e));
        }
    }
}

/// One per-subscription consumer runtime: a consumer group on one stream
/// plus the concurrency ceiling that bounds simultaneous handler work.
#[derive(Debug)]
pub struct EventSubscriber {
    /// The consumer-group name this subscription reads under.
    pub id: String,
    /// The stream topic it consumes.
    pub stream: Stream,
    concurrency: usize,
    group: ConsumerGroup,
    in_flight: usize,
}

impl EventSubscriber {
    /// The consumer-group name, as a character sequence.
    pub closed spec fn group_id(&self) -> Seq<char> {
        self.id@
    }

    /// The stream topic this subscription consumes.
    pub closed spec fn stream_of(&self) -> Stream {
        self.stream
    }

    /// How many handler invocations are running right now.
    pub closed spec fn in_flight(&self) -> int {
        self.in_flight as int
    }

    /// The fixed ceiling on simultaneous handler invocations.
    pub closed spec fn concurrency_limit(&self) -> int {
        self.concurrency as int
    }

    /// The group's unacknowledged deliveries.
    pub closed spec fn pending_seq(&self) -> Seq<PendingEntry> {
        self.group.pending_seq()
    }

    /// The group's fresh-read cursor.
    pub closed spec fn cursor_ix(&self) -> int {
        self.group.cursor_ix()
    }

    /// The concurrency ceiling always holds, and the group state is
    /// coherent.
    pub closed spec fn wf(&self) -> bool {
        self.group.wf() && 0 <= self.in_flight() <= self.concurrency_limit()
    }

    /// A subscription that joins (creating if absent) the consumer group
    /// named by `id` on `stream`, with nothing read and nothing running.
    pub fn new(id: String, stream: Stream, concurrency: usize) -> (r: Self)
        ensures
            r.wf(),
            r.group_id() == id@,
            r.stream_of() == stream,
            r.concurrency_limit() == concurrency,
            r.in_flight() == 0,
            r.cursor_ix() == 0,
            r.pending_seq() == Seq::<PendingEntry>::empty(),
    {
        EventSubscriber { id, stream, concurrency, group: ConsumerGroup::new(), in_flight: 0 }
    }

    /// Picks the next entry to dispatch, if a concurrency slot is free:
    /// first a reclaim-eligible pending entry (a redelivery), otherwise
    /// the next fresh entry. Returns `None` exactly when every slot is
    /// taken or there is nothing to deliver. Never lets more than
    /// `concurrency_limit` handler invocations run at once.
    pub fn poll_next(&mut self, log: &EventLog, now: u64, min_idle: u64) -> (r: Option<
        (usize, EventPayload),
    >)
        requires
            old(self).wf(),
            old(self).cursor_ix() <= log@.len(),
        ensures
            final(self).wf(),
            final(self).in_flight() <= final(self).concurrency_limit(),
            final(self).concurrency_limit() == old(self).concurrency_limit(),
            final(self).group_id() == old(self).group_id(),
            final(self).stream_of() == old(self).stream_of(),
            final(self).cursor_ix() <= log@.len(),
            r is None ==> ({
                &&& final(self).in_flight() == old(self).in_flight()
                &&& final(self).pending_seq() == old(self).pending_seq()
                &&& final(self).cursor_ix() == old(self).cursor_ix()
            }),
            r is None <==> (old(self).in_flight() == old(self).concurrency_limit() || (
            !exists_stale(old(self).pending_seq(), now, min_idle) && old(self).cursor_ix()
                == log@.len())),
            r matches Some((id, p)) ==> {
                &&& old(self).in_flight() < old(self).concurrency_limit()
                &&& final(self).in_flight() == old(self).in_flight() + 1
                &&& id < log@.len()
                &&& p@ == log@[id as int]
                &&& {
                    ||| (exists|i: int|
                        claimed_at(
                            old(self).pending_seq(),
                            final(self).pending_seq(),
                            i,
                            id as int,
                            now,
                            min_idle,
                        ) && final(self).cursor_ix() == old(self).cursor_ix())
                    ||| ({
                        &&& !exists_stale(old(self).pending_seq(), now, min_idle)
                        &&& id as int == old(self).cursor_ix()
                        &&& final(self).cursor_ix() == old(self).cursor_ix() + 1
                        &&& final(self).pending_seq() == old(self).pending_seq().push(
                            PendingEntry {
                                entry_id: id,
                                last_delivered_at: now,
                                delivery_count: 1,
                            },
                        )
                    })
                }
            },
    {
        if self.in_flight >= self.concurrency {
            return None;
        }
        let ghost s = self.group.pending@;
        let n = self.group.pending.len();
        let mut i: usize = 0;
        while i < n
            invariant
                n == self.group.pending.len(),
                s == self.group.pending@,
                i <= n,
                *self == *old(self),
                old(self).wf(),
                old(self).in_flight() < old(self).concurrency_limit(),
                old(self).cursor_ix() <= log@.len(),
                forall|j: int| 0 <= j < i ==> !stale(#[trigger] s[j], now, min_idle),
            decreases n - i,
        {
            let entry = self.group.pending[i];
            let is_stale = min_idle <= now && entry.last_delivered_at <= now - min_idle;
            if is_stale {
                let bumped = PendingEntry {
                    entry_id: entry.entry_id,
                    last_delivered_at: now,
                    delivery_count: if entry.delivery_count == u64::MAX {
                        entry.delivery_count
                    } else {
                        entry.delivery_count + 1
                    },
                };
                proof {
                    assert(old(self).group.pending_seq()[i as int] == s[i as int]);
                    assert(s[i as int].entry_id < old(self).cursor_ix());
                }
                self.group.pending.set(i, bumped);
                self.in_flight = self.in_flight + 1;
                let payload = log.read(entry.entry_id).clone();
                proof {
                    assert(self.group.pending_seq() == s.update(i as int, bump(s[i as int], now)));
                    assert forall|w: int|
                        0 <= w < self.group.pending_seq().len() implies (
                    #[trigger] self.group.pending_seq()[w]).entry_id
                        < self.group.cursor_ix() by {
                        assert(old(self).group.pending_seq()[w] == s[w]);
                        if w != i {
                            assert(self.group.pending_seq()[w] == s[w]);
                        }
                    }
                    assert forall|w1: int, w2: int|
                        0 <= w1 < w2 < self.group.pending_seq().len() implies (
                    #[trigger] self.group.pending_seq()[w1]).entry_id != (
                    #[trigger] self.group.pending_seq()[w2]).entry_id by {
                        assert(old(self).group.pending_seq()[w1] == s[w1]);
                        assert(old(self).group.pending_seq()[w2] == s[w2]);
                        assert(self.group.pending_seq()[w1].entry_id == s[w1].entry_id);
                        assert(self.group.pending_seq()[w2].entry_id == s[w2].entry_id);
                    }
                    assert(self.group.wf());
                    assert(stale(s[i as int], now, min_idle));
                    assert(exists_stale(s, now, min_idle));
                    assert(claimed_at(
                        old(self).pending_seq(),
                        self.pending_seq(),
                        i as int,
                        entry.entry_id as int,
                        now,
                        min_idle,
                    ));
                    assert(exists|w: int|
                        claimed_at(
                            old(self).pending_seq(),
                            self.pending_seq(),
                            w,
                            entry.entry_id as int,
                            now,
                            min_idle,
                        ));
                }
                return Some((entry.entry_id, payload));
            }
            proof {
                assert(!stale(s[i as int], now, min_idle));
            }
            i = i + 1;
        }
        proof {
            assert(!exists_stale(s, now, min_idle));
        }
        let cursor = self.group.cursor;
        if cursor < log.len() {
            let payload = log.read(cursor).clone();
            self.group.pending.push(
                PendingEntry { entry_id: cursor, last_delivered_at: now, delivery_count: 1 },
            );
            self.group.cursor = cursor + 1;
            self.in_flight = self.in_flight + 1;
            proof {
                assert(self.group.pending_seq() == s.push(
                    PendingEntry { entry_id: cursor, last_delivered_at: now, delivery_count: 1 },
                ));
                assert forall|w: int|
                    0 <= w < self.group.pending_seq().len() implies (
                #[trigger] self.group.pending_seq()[w]).entry_id < self.group.cursor_ix() by {
                    if w < s.len() {
                        assert(old(self).group.pending_seq()[w] == s[w]);
                        assert(self.group.pending_seq()[w] == s[w]);
                    }
                }
                assert forall|w1: int, w2: int|
                    0 <= w1 < w2 < self.group.pending_seq().len() implies (
                #[trigger] self.group.pending_seq()[w1]).entry_id != (
                #[trigger] self.group.pending_seq()[w2]).entry_id by {
                    assert(old(self).group.pending_seq()[w1] == s[w1]);
                    if w2 == self.group.pending_seq().len() - 1 {
                        assert(s[w1].entry_id < old(self).cursor_ix());
                    } else {
                        assert(old(self).group.pending_seq()[w2] == s[w2]);
                    }
                }
                assert(self.group.wf());
            }
            Some((cursor, payload))
        } else {
            None
        }
    }

    /// A handler finished for one dispatched entry. On success the entry
    /// is acknowledged: it leaves the pending list for good. On failure
    /// it is left untouched and unacknowledged, so it becomes eligible
    /// for reclamation and redelivery. Either way one concurrency slot
    /// is freed. Reports whether an acknowledgment was recorded.
    pub fn complete(&mut self, entry_id: usize, success: bool) -> (acked: bool)
        requires
            old(self).wf(),
            old(self).in_flight() > 0,
        ensures
            final(self).wf(),
            final(self).in_flight() == old(self).in_flight() - 1,
            final(self).concurrency_limit() == old(self).concurrency_limit(),
            final(self).cursor_ix() == old(self).cursor_ix(),
            final(self).group_id() == old(self).group_id(),
            final(self).stream_of() == old(self).stream_of(),
            success ==> final(self).pending_seq() == remove_id(
                old(self).pending_seq(),
                entry_id as int,
            ) && acked == has_pending(old(self).pending_seq(), entry_id as int),
            !success ==> final(self).pending_seq() == old(self).pending_seq() && !acked,
    {
        self.in_flight = self.in_flight - 1;
        if success {
            self.group.ack(entry_id)
        } else {
            false
        }
    }
}

} // verus!
