//! The deep-link pipeline: one link cache and one broadcaster, fed by the
//! platform ingestion paths (startup snapshot, live OS notification, and the
//! foreign runtime bridge) and queried by the application.
//!
//! Every ingestion path runs through the same pipeline: the cache is
//! replaced first, then the event is published, so a subscriber woken by a
//! delivery that immediately queries the cache observes the event it was
//! just delivered, never a stale one.

use vstd::prelude::*;

use crate::broadcast::Broadcaster;
use crate::broadcast::Delivery;
use crate::broadcast::delivers_each;
use crate::bridge::bridge_url_of;
use crate::bridge::decode_bridge_payload;
use crate::bridge::url_wf;
use crate::cache::LinkCache;

verus! {

/// What one ingested event leaves in the cache: the new batch replaces the
/// old contents wholesale, whatever they were.
pub open spec fn link_step(before: Option<Seq<Seq<char>>>, event: Seq<Seq<char>>) -> Option<
    Seq<Seq<char>>,
> {
    Some(event)
}

/// The cache contents after a whole sequence of events has been ingested
/// into a cache that started out holding `init`.
pub open spec fn link_after(init: Option<Seq<Seq<char>>>, events: Seq<Seq<Seq<char>>>) -> Option<
    Seq<Seq<char>>,
>
    decreases events.len(),
{
    if events.len() == 0 {
        init
    } else {
        link_step(link_after(init, events.drop_last()), events.last())
    }
}

/// Last write wins: after any non-empty sequence of ingested events the
/// cache holds exactly the final event's URL batch, never an earlier one,
/// and never a merge.
pub proof fn lemma_last_write_wins(init: Option<Seq<Seq<char>>>, events: Seq<Seq<Seq<char>>>)
    requires
        events.len() > 0,
    ensures
        link_after(init, events) == Some(events.last()),
{
}

/// Access to the deep-link pipeline: the last observed link and the
/// subscriber registry.
pub struct DeepLink {
    cache: LinkCache,
    broadcaster: Broadcaster,
}

impl DeepLink {
    /// The cached last link event, if any event has been ingested.
    pub closed spec fn last_link(self) -> Option<Seq<Seq<char>>> {
        self.cache@
    }

    /// The registered subscriber handles.
    pub closed spec fn subs(self) -> Seq<u64> {
        self.broadcaster.subs()
    }

    /// How many subscriber handles have ever been issued.
    pub closed spec fn issued(self) -> u64 {
        self.broadcaster.issued()
    }

    /// The pipeline is well-formed when its subscriber registry is: no
    /// handle registered twice, every handle below the issue counter.
    pub open spec fn wf(self) -> bool {
        &&& crate::broadcast::distinct(self.subs())
        &&& crate::broadcast::below(self.subs(), self.issued())
    }

    /// A fresh pipeline: no link observed yet, no subscribers.
    pub fn new() -> (d: DeepLink)
        ensures
            d.wf(),
            d.last_link() is None,
            d.subs() == Seq::<u64>::empty(),
            d.issued() == 0,
    {
        DeepLink { cache: LinkCache::new(), broadcaster: Broadcaster::new() }
    }

    /// Ingest one link event: overwrite the cache, then fan the event out.
    ///
    /// The returned list holds the deliveries now owed to subscribers, one
    /// per handle registered at this moment; the caller invokes each
    /// subscriber's callback with its entry. The cache is replaced before
    /// the delivery list is produced, so dispatch cannot observe a stale
    /// cache.
    pub fn ingest(&mut self, event: Vec<String>) -> (ds: Vec<Delivery>)
        requires
            old(self).wf(),
        ensures
            final(self).wf(),
            final(self).last_link() == link_step(old(self).last_link(), event.deep_view()),
            final(self).subs() == old(self).subs(),
            final(self).issued() == old(self).issued(),
            delivers_each(ds@, old(self).subs(), event.deep_view()),
    {
        let copy = crate::cache::clone_urls(&event);
        self.cache.replace(event);
        self.broadcaster.publish(&copy)
    }

    /// Ingest the one-time startup snapshot, if the host reported one.
    ///
    /// An absent snapshot is not an event: the cache stays as it is and no
    /// delivery is owed. A present snapshot, even an empty batch, runs
    /// through the ordinary pipeline.
    pub fn ingest_startup(&mut self, snapshot: Option<Vec<String>>) -> (ds: Vec<Delivery>)
        requires
            old(self).wf(),
        ensures
            final(self).wf(),
            final(self).subs() == old(self).subs(),
            final(self).issued() == old(self).issued(),
            match snapshot {
                Some(event) => final(self).last_link() == link_step(
                    old(self).last_link(),
                    event.deep_view(),
                ) && delivers_each(ds@, old(self).subs(), event.deep_view()),
                None => final(self).last_link() == old(self).last_link() && ds@.len() == 0,
            },
    {
        match snapshot {
            Some(event) => self.ingest(event),
            None => Vec::new(),
        }
    }

    /// Ingest one invocation of the foreign bridge callback, already
    /// decoded.
    ///
    /// A decoded URL becomes a singleton event and runs through the
    /// ordinary pipeline. A malformed invocation (`None`) never updates the
    /// cache and never triggers a publish.
    pub fn ingest_bridge(&mut self, decoded: Option<String>) -> (ds: Vec<Delivery>)
        requires
            old(self).wf(),
        ensures
            final(self).wf(),
            final(self).subs() == old(self).subs(),
            final(self).issued() == old(self).issued(),
            match decoded {
                Some(u) => final(self).last_link() == Some(seq![u@]) && delivers_each(
                    ds@,
                    old(self).subs(),
                    seq![u@],
                ),
                None => final(self).last_link() == old(self).last_link() && ds@.len() == 0,
            },
    {
        match decoded {
            Some(u) => {
                let ghost uv = u@;
                let mut event: Vec<String> = Vec::new();
                event.push(u);
                proof {
                    assert(event.deep_view() =~~= seq![uv]);
                }
                self.ingest(event)
            },
            None => Vec::new(),
        }
    }

    /// Handle one raw invocation of the foreign bridge callback: decode the
    /// payload defensively, then ingest.
    ///
    /// A payload carrying a well-formed URL under its `url` key becomes the
    /// cached singleton event and is fanned out to every subscriber; a
    /// malformed payload leaves the cache as it was and owes no delivery.
    pub fn handle_bridge_payload(&mut self, payload: &str) -> (ds: Vec<Delivery>)
        requires
            old(self).wf(),
        ensures
            final(self).wf(),
            final(self).subs() == old(self).subs(),
            final(self).issued() == old(self).issued(),
            match bridge_url_of(payload@) {
                Some(u) => if url_wf(u) {
                    final(self).last_link() == Some(seq![u]) && delivers_each(
                        ds@,
                        old(self).subs(),
                        seq![u],
                    )
                } else {
                    final(self).last_link() == old(self).last_link() && ds@.len() == 0
                },
                None => final(self).last_link() == old(self).last_link() && ds@.len() == 0,
            },
    {
        let decoded = decode_bridge_payload(payload);
        self.ingest_bridge(decoded)
    }

    /// Snapshot query: a copy of the last ingested link event, or `None` if
    /// no event was ever ingested.
    pub fn get_last_link(&self) -> (r: Option<Vec<String>>)
        ensures
            r.deep_view() == self.last_link(),
    {
        self.cache.get()
    }

    /// Whether a query must fall back to the foreign runtime: only when the
    /// local cache has never been filled.
    pub fn needs_foreign_query(&self) -> (r: bool)
        ensures
            r == (self.last_link() is None),
    {
        let current = self.cache.get();
        current.is_none()
    }

    /// The bridge variant of the query: the cached event when there is one,
    /// otherwise whatever the foreign side's on-demand query recovered.
    ///
    /// The caller performs the foreign call and hands in its result;
    /// a failed call is handed in as `None`, so failure reads as "none"
    /// rather than propagating.
    pub fn resolve_last_link(&self, fetched: Option<Vec<String>>) -> (r: Option<Vec<String>>)
        ensures
            self.last_link() is Some ==> r.deep_view() == self.last_link(),
            self.last_link() is None ==> r.deep_view() == fetched.deep_view(),
    {
        let current = self.cache.get();
        match current {
            Some(event) => Some(event),
            None => fetched,
        }
    }

    /// Register a subscriber for every future event; the fresh handle never
    /// appears in a delivery list produced before this call.
    pub fn subscribe(&mut self) -> (h: u64)
        requires
            old(self).wf(),
            old(self).issued() < u64::MAX,
        ensures
            final(self).wf(),
            h == old(self).issued(),
            !old(self).subs().contains(h),
            final(self).subs() == old(self).subs().push(h),
            final(self).issued() == old(self).issued() + 1,
            final(self).last_link() == old(self).last_link(),
    {
        self.broadcaster.subscribe()
    }

    /// Drop a subscriber: no delivery list produced after this call has an
    /// entry for the handle.
    pub fn unsubscribe(&mut self, h: u64)
        requires
            old(self).wf(),
        ensures
            final(self).wf(),
            final(self).issued() == old(self).issued(),
            !final(self).subs().contains(h),
            forall|x: u64|
                x != h ==> (final(self).subs().contains(x) <==> old(self).subs().contains(x)),
            final(self).last_link() == old(self).last_link(),
    {
        self.broadcaster.unsubscribe(h)
    }
}

} // verus!

