//! The downstream subscription handler pattern: reacting to a
//! `LookupAlbumSearchUpdated` event whose lookup reached `AlbumParsed`
//! by fulfilling every pending import subscription for that query —
//! attach the resolved artifact to the subscriber's collection, then
//! delete the subscription record. Any other event is a no-op, not an
//! error: a stream carries several event kinds and handlers must
//! tolerate the irrelevant ones.

use crate::events::{Event, EventPayload, EventView, PayloadView, Stream};
use crate::files::FileName;
use crate::lookup::{AlbumSearchLookup, AlbumSearchLookupQuery, LookupView, QueryView};
use crate::subscriber::EventSubscriber;
use vstd::prelude::*;

verus! {

/// A pending import wish: which profile wants the album of a query, and
/// with what weight.
#[derive(Debug)]
pub struct SpotifyImportSubscription {
    pub profile_id: String,
    pub factor: u32,
}

/// The mathematical content of a subscription record.
pub ghost struct SubscriptionView {
    pub profile_id: Seq<char>,
    pub factor: u32,
}

impl View for SpotifyImportSubscription {
    type V = SubscriptionView;

    open spec fn view(&self) -> SubscriptionView {
        SubscriptionView { profile_id: self.profile_id@, factor: self.factor }
    }
}

impl Clone for SpotifyImportSubscription {
    fn clone(&self) -> (r: Self)
        ensures
            r@ == self@,
    {
        SpotifyImportSubscription { profile_id: self.profile_id.clone(), factor: self.factor }
    }
}

/// One idempotent side effect the handler asks its runner to perform.
#[derive(Debug)]
pub enum SubscriptionAction {
    /// Attach the resolved artifact to the profile, weighted.
    AddAlbumToProfile { profile_id: String, file_name: FileName, factor: u32 },
    /// Delete the fulfilled subscription record.
    RemoveSubscription { profile_id: String, query: AlbumSearchLookupQuery },
}

/// The mathematical content of an action.
pub ghost enum ActionView {
    AddAlbumToProfile { profile_id: Seq<char>, file_name: Seq<char>, factor: u32 },
    RemoveSubscription { profile_id: Seq<char>, query: QueryView },
}

impl View for SubscriptionAction {
    type V = ActionView;

    open spec fn view(&self) -> ActionView {
        match self {
            SubscriptionAction::AddAlbumToProfile { profile_id, file_name, factor } => {
                ActionView::AddAlbumToProfile {
                    profile_id: profile_id@,
                    file_name: file_name@,
                    factor: *factor,
                }
            },
            SubscriptionAction::RemoveSubscription { profile_id, query } => {
                ActionView::RemoveSubscription { profile_id: profile_id@, query: query@ }
            },
        }
    }
}

/// The record lists seen mathematically.
pub open spec fn subs_view(s: Seq<SpotifyImportSubscription>) -> Seq<SubscriptionView> {
    s.map_values(|x: SpotifyImportSubscription| x@)
}

pub open spec fn actions_view(s: Seq<SubscriptionAction>) -> Seq<ActionView> {
    s.map_values(|x: SubscriptionAction| x@)
}

/// Fulfilling one subscription: attach the artifact, then delete the
/// record — in that order, so a crash between the two leaves the record
/// for a redelivered event to finish, never a lost wish.
pub open spec fn actions_for(sub: SubscriptionView, q: QueryView, f: Seq<char>) -> Seq<
    ActionView,
> {
    seq![
        ActionView::AddAlbumToProfile {
            profile_id: sub.profile_id,
            file_name: f,
            factor: sub.factor,
        },
        ActionView::RemoveSubscription { profile_id: sub.profile_id, query: q },
    ]
}

/// The fulfillment plan over all matching subscriptions, in their order.
pub open spec fn plan_actions(subs: Seq<SubscriptionView>, q: QueryView, f: Seq<char>) -> Seq<
    ActionView,
>
    decreases subs.len(),
{
    if subs.len() == 0 {
        Seq::empty()
    } else {
        plan_actions(subs.drop_last(), q, f) + actions_for(subs.last(), q, f)
    }
}

/// What the handler does with an envelope: a fulfillment plan when the
/// lookup reached `AlbumParsed`, and nothing otherwise.
pub open spec fn lookup_subscription_plan(p: PayloadView, subs: Seq<SubscriptionView>) -> Seq<
    ActionView,
> {
    match p.event {
        EventView::LookupAlbumSearchUpdated { lookup } => match lookup {
            LookupView::AlbumParsed { query, result } => plan_actions(
                subs,
                query,
                result.file_name,
            ),
            _ => Seq::empty(),
        },
        _ => Seq::empty(),
    }
}

/// Decides how to react to one delivered envelope, given the pending
/// subscription records found for the query: the ordered list of side
/// effects to perform. Re-running it for a redelivered envelope yields
/// the same plan, whose effects are idempotent by design.
pub fn process_lookup_subscriptions(
    payload: &EventPayload,
    subscriptions: &Vec<SpotifyImportSubscription>,
) -> (r: Vec<SubscriptionAction>)
    ensures
        actions_view(r@) == lookup_subscription_plan(payload@, subs_view(subscriptions@)),
{
    match &payload.event {
        Event::LookupAlbumSearchUpdated {
            lookup: AlbumSearchLookup::AlbumParsed { query, parsed_album_search_result },
        } => {
            let ghost q = query@;
            let ghost f = parsed_album_search_result.file_name@;
            let ghost subs = subs_view(subscriptions@);
            let mut r: Vec<SubscriptionAction> = Vec::new();
            let mut i: usize = 0;
            while i < subscriptions.len()
                invariant
                    i <= subscriptions.len(),
                    q == query@,
                    f == parsed_album_search_result.file_name@,
                    subs == subs_view(subscriptions@),
                    actions_view(r@) == plan_actions(subs.subrange(0, i as int), q, f),
                decreases subscriptions.len() - i,
            {
                let ghost prefix = subs.subrange(0, i as int);
                let ghost prev = r@;
                let sub = &subscriptions[i];
                r.push(
                    SubscriptionAction::AddAlbumToProfile {
                        profile_id: sub.profile_id.clone(),
                        file_name: parsed_album_search_result.file_name.clone(),
                        factor: sub.factor,
                    },
                );
                r.push(
                    SubscriptionAction::RemoveSubscription {
                        profile_id: sub.profile_id.clone(),
                        query: query.clone(),
                    },
                );
                proof {
                    assert(subs.subrange(0, i + 1).drop_last() =~= prefix);
                    assert(subs.subrange(0, i + 1).last() == subs[i as int]);
                    assert(subs[i as int] == subscriptions@[i as int]@);
                    assert(sub@ == subs[i as int]);
                    assert(r@.len() == prev.len() + 2);
                    assert(r@[prev.len() as int]@ == (ActionView::AddAlbumToProfile {
                        profile_id: subs[i as int].profile_id,
                        file_name: f,
                        factor: subs[i as int].factor,
                    }));
                    assert(r@[prev.len() as int + 1]@ == (ActionView::RemoveSubscription {
                        profile_id: subs[i as int].profile_id,
                        query: q,
                    }));
                    assert forall|j: int| 0 <= j < prev.len() implies actions_view(r@)[j]
                        == plan_actions(prefix, q, f)[j] by {
                        assert(r@[j] == prev[j]);
                        assert(actions_view(prev)[j] == plan_actions(prefix, q, f)[j]);
                    }
                    assert(actions_view(r@)[prev.len() as int] == actions_for(
                        subs[i as int],
                        q,
                        f,
                    )[0]);
                    assert(actions_view(r@)[prev.len() as int + 1] == actions_for(
                        subs[i as int],
                        q,
                        f,
                    )[1]);
                    assert(actions_view(r@) =~= plan_actions(subs.subrange(0, i + 1), q, f));
                }
                i = i + 1;
            }
            proof {
                assert(subs.subrange(0, subs.len() as int) =~= subs);
            }
            r
        },
        _ => {
            let r: Vec<SubscriptionAction> = Vec::new();
            proof {
                assert(actions_view(r@) =~= Seq::<ActionView>::empty());
            }
            r
        },
    }
}

/// The import-fulfillment subscriptions this subsystem registers: one
/// consumer group on the lookup stream, limited to at most 250
/// simultaneous handler invocations.
pub fn build_spotify_import_event_subscribers() -> (r: Vec<EventSubscriber>)
    ensures
        r@.len() == 1,
        r@[0].wf(),
        r@[0].group_id() == "profile_spotify_import"@,
        r@[0].stream_of() == Stream::Lookup,
        r@[0].concurrency_limit() == 250,
        r@[0].in_flight() == 0,
        r@[0].cursor_ix() == 0,
{
    let id = "profile_spotify_import".to_owned();
    let subscriber = EventSubscriber::new(id, Stream::Lookup, 250);
    let mut r: Vec<EventSubscriber> = Vec::new();
    r.push(subscriber);
    r
}

} // verus!
