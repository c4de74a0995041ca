//! The event broadcaster: a registry of subscriber handles, and a `publish`
//! that produces exactly one delivery per currently registered subscriber.
//!
//! Delivery is modelled as data: `publish` returns the list of deliveries
//! owed for the event, one per registered handle, and the surrounding
//! application invokes each subscriber's callback with its entry. A failing
//! or slow callback therefore cannot disturb the registry, the cache, or the
//! deliveries owed to the other subscribers.

use vstd::prelude::*;

verus! {

/// One delivery owed to one subscriber: the handle to notify and a copy of
/// the event's URL batch.
pub struct Delivery {
    pub handle: u64,
    pub urls: Vec<String>,
}

/// Registry of live subscriber handles.
///
/// Handles are issued from a counter, so a handle issued after a publish can
/// never collide with one that was registered at publish time.
pub struct Broadcaster {
    handles: Vec<u64>,
    next_handle: u64,
}

impl Broadcaster {
    /// The currently registered handles, in registration order.
    pub closed spec fn subs(self) -> Seq<u64> {
        self.handles@
    }

    /// How many handles have ever been issued; also the next handle's value.
    pub closed spec fn issued(self) -> u64 {
        self.next_handle
    }

    /// Registry invariant: no handle is registered twice, and every
    /// registered handle was issued by the counter.
    pub open spec fn wf(self) -> bool {
        &&& distinct(self.subs())
        &&& below(self.subs(), self.issued())
    }

    /// A fresh broadcaster has no subscribers.
    pub fn new() -> (b: Broadcaster)
        ensures
            b.wf(),
            b.subs() == Seq::<u64>::empty(),
            b.issued() == 0,
    {
        let b = Broadcaster { handles: Vec::new(), next_handle: 0 };
        proof {
            assert(b.subs() =~= Seq::<u64>::empty());
        }
        b
    }

    /// Register a subscriber; the returned handle is fresh, so it was not
    /// registered before and appears in no delivery list produced earlier.
    pub fn subscribe(&mut self) -> (h: u64)
        requires
            old(self).wf(),
            old(self).issued() < u64::MAX,
        ensures
            final(self).wf(),
            h == old(self).issued(),
            !old(self).subs().contains(h),
            final(self).subs() == old(self).subs().push(h),
            final(self).issued() == old(self).issued() + 1,
    {
        let h = self.next_handle;
        self.handles.push(h);
        self.next_handle = self.next_handle + 1;
        proof {
            assert(self.subs() == old(self).subs().push(h));
            assert forall|i: int, j: int|
                0 <= i < j < self.subs().len() implies self.subs()[i] != self.subs()[j] by {
                if j < self.subs().len() - 1 {
                    assert(old(self).subs()[i] != old(self).subs()[j]);
                } else {
                    assert(old(self).subs()[i] < old(self).issued());
                }
            }
            assert forall|i: int| 0 <= i < self.subs().len() implies self.subs()[i]
                < self.issued() by {
                if i < self.subs().len() - 1 {
                    assert(old(self).subs()[i] < old(self).issued());
                }
            }
        }
        h
    }

    /// Remove a handle. Afterwards the handle is not registered, every other
    /// handle's registration is unchanged, and no later publish can deliver
    /// to it.
    pub fn unsubscribe(&mut self, h: u64)
        requires
            old(self).wf(),
        ensures
            final(self).wf(),
            final(self).issued() == old(self).issued(),
            !final(self).subs().contains(h),
            forall|x: u64|
                x != h ==> (final(self).subs().contains(x) <==> old(self).subs().contains(x)),
            old(self).subs().contains(h) ==> final(self).subs().len() == old(
                self,
            ).subs().len() - 1,
            !old(self).subs().contains(h) ==> final(self).subs() == old(self).subs(),
    {
        let ghost orig = self.handles@;
        proof {
            assert(orig == old(self).subs());
            assert forall|a: int, b: int| 0 <= a < b < orig.len() implies orig[a] != orig[b] by {
                assert(old(self).subs()[a] != old(self).subs()[b]);
            }
            assert forall|a: int| 0 <= a < orig.len() implies orig[a] < old(self).issued() by {
                assert(old(self).subs()[a] < old(self).issued());
            }
        }
        match find_handle(&self.handles, h) {
            Some(i) => {
                self.handles.remove(i);
                proof {
                    let now = self.handles@;
                    orig.remove_ensures(i as int);
                    assert(now == orig.remove(i as int));
                    assert forall|k: int| 0 <= k < now.len() implies now[k] != h by {
                        if k < i as int {
                            assert(now[k] == orig[k]);
                            assert(orig[k] != orig[i as int]);
                        } else {
                            assert(now[k] == orig[k + 1]);
                            assert(orig[i as int] != orig[k + 1]);
                        }
                    }
                    assert(!now.contains(h));
                    assert forall|x: u64| x != h && orig.contains(x) implies now.contains(x) by {
                        let k = choose|k: int| 0 <= k < orig.len() && orig[k] == x;
                        if k < i as int {
                            assert(now[k] == x);
                        } else if k == i as int {
                            assert(orig[k] == h);
                        } else {
                            assert(now[k - 1] == x);
                        }
                    }
                    assert forall|x: u64| now.contains(x) implies orig.contains(x) by {
                        let k = choose|k: int| 0 <= k < now.len() && now[k] == x;
                        if k < i as int {
                            assert(orig[k] == x);
                        } else {
                            assert(orig[k + 1] == x);
                        }
                    }
                }
            },
            None => {
                proof {
                    assert(!orig.contains(h));
                }
            },
        }
    }

    /// Whether a handle is currently registered.
    pub fn is_subscribed(&self, h: u64) -> (r: bool)
        ensures
            r == self.subs().contains(h),
    {
        find_handle(&self.handles, h).is_some()
    }

    /// Produce the deliveries for one event: one entry per registered
    /// handle, in registry order, each carrying a copy of the event.
    pub fn publish(&self, urls: &Vec<String>) -> (ds: Vec<Delivery>)
        ensures
            delivers_each(ds@, self.subs(), urls.deep_view()),
    {
        let mut ds: Vec<Delivery> = Vec::new();
        let mut i: usize = 0;
        while i < self.handles.len()
            invariant
                0 <= i <= self.handles@.len(),
                ds@.len() == i,
                forall|k: int|
                    0 <= k < i ==> (#[trigger] ds@[k]).handle == self.handles@[k]
                        && ds@[k].urls.deep_view() == urls.deep_view(),
            decreases self.handles@.len() - i,
        {
            let copy = crate::cache::clone_urls(urls);
            ds.push(Delivery { handle: self.handles[i], urls: copy });
            i = i + 1;
        }
        ds
    }
}

/// No handle occurs twice in the sequence.
pub open spec fn distinct(hs: Seq<u64>) -> bool {
    forall|i: int, j: int| 0 <= i < j < hs.len() ==> hs[i] != hs[j]
}

/// Every handle in the sequence is below the bound.
pub open spec fn below(hs: Seq<u64>, bound: u64) -> bool {
    forall|i: int| 0 <= i < hs.len() ==> hs[i] < bound
}

/// The shape of a delivery list for one event: exactly one entry per handle
/// of `hs`, in order, each carrying the event's URL batch `urls`.
pub open spec fn delivers_each(ds: Seq<Delivery>, hs: Seq<u64>, urls: Seq<Seq<char>>) -> bool {
    &&& ds.len() == hs.len()
    &&& forall|i: int|
        0 <= i < ds.len() ==> (#[trigger] ds[i]).handle == hs[i] && ds[i].urls.deep_view() == urls
}

/// How many deliveries in `ds` are addressed to handle `h`.
pub open spec fn deliveries_to(ds: Seq<Delivery>, h: u64) -> nat
    decreases ds.len(),
{
    if ds.len() == 0 {
        0
    } else {
        deliveries_to(ds.drop_last(), h) + if ds.last().handle == h {
            1nat
        } else {
            0nat
        }
    }
}

/// How many times `h` occurs in a handle sequence.
pub open spec fn occurrences(hs: Seq<u64>, h: u64) -> nat
    decreases hs.len(),
{
    if hs.len() == 0 {
        0
    } else {
        occurrences(hs.drop_last(), h) + if hs.last() == h {
            1nat
        } else {
            0nat
        }
    }
}

proof fn lemma_deliveries_follow_handles(ds: Seq<Delivery>, hs: Seq<u64>, urls: Seq<Seq<char>>, h: u64)
    requires
        delivers_each(ds, hs, urls),
    ensures
        deliveries_to(ds, h) == occurrences(hs, h),
    decreases ds.len(),
{
    if ds.len() > 0 {
        assert(delivers_each(ds.drop_last(), hs.drop_last(), urls));
        lemma_deliveries_follow_handles(ds.drop_last(), hs.drop_last(), urls, h);
        assert(ds.last().handle == hs.last());
    }
}

proof fn lemma_occurrences_of_unique(hs: Seq<u64>, h: u64)
    requires
        distinct(hs),
    ensures
        occurrences(hs, h) == if hs.contains(h) {
            1nat
        } else {
            0nat
        },
    decreases hs.len(),
{
    if hs.len() > 0 {
        let prefix = hs.drop_last();
        lemma_occurrences_of_unique(prefix, h);
        if hs.last() == h {
            assert(!prefix.contains(h)) by {
                if exists|k: int| 0 <= k < prefix.len() && prefix[k] == h {
                    let k = choose|k: int| 0 <= k < prefix.len() && prefix[k] == h;
                    assert(hs[k] != hs[hs.len() - 1]);
                }
            }
            assert(hs.contains(h)) by {
                assert(hs[hs.len() - 1] == h);
            }
        } else {
            assert(prefix.contains(h) <==> hs.contains(h)) by {
                if prefix.contains(h) {
                    let k = choose|k: int| 0 <= k < prefix.len() && prefix[k] == h;
                    assert(hs[k] == h);
                }
                if hs.contains(h) {
                    let k = choose|k: int| 0 <= k < hs.len() && hs[k] == h;
                    assert(prefix[k] == h);
                }
            }
        }
    }
}

/// A subscriber that is registered when an event is published is delivered
/// that event exactly once.
pub proof fn lemma_subscriber_receives_once(
    ds: Seq<Delivery>,
    hs: Seq<u64>,
    urls: Seq<Seq<char>>,
    h: u64,
)
    requires
        distinct(hs),
        delivers_each(ds, hs, urls),
        hs.contains(h),
    ensures
        deliveries_to(ds, h) == 1,
{
    lemma_deliveries_follow_handles(ds, hs, urls, h);
    lemma_occurrences_of_unique(hs, h);
}

/// A handle that is not registered when an event is published — one that was
/// never issued, or was unsubscribed beforehand — is delivered nothing.
pub proof fn lemma_unregistered_receives_nothing(
    ds: Seq<Delivery>,
    hs: Seq<u64>,
    urls: Seq<Seq<char>>,
    h: u64,
)
    requires
        distinct(hs),
        delivers_each(ds, hs, urls),
        !hs.contains(h),
    ensures
        deliveries_to(ds, h) == 0,
{
    lemma_deliveries_follow_handles(ds, hs, urls, h);
    lemma_occurrences_of_unique(hs, h);
}

/// A subscriber registered strictly after a publish completed receives none
/// of that publish's deliveries: its handle comes from the issue counter, so
/// it is distinct from every handle that was registered at publish time.
pub proof fn lemma_late_subscriber_receives_nothing(
    ds: Seq<Delivery>,
    hs: Seq<u64>,
    urls: Seq<Seq<char>>,
    issued: u64,
    h: u64,
)
    requires
        distinct(hs),
        below(hs, issued),
        delivers_each(ds, hs, urls),
        h >= issued,
    ensures
        deliveries_to(ds, h) == 0,
{
    assert(!hs.contains(h)) by {
        if exists|k: int| 0 <= k < hs.len() && hs[k] == h {
            let k = choose|k: int| 0 <= k < hs.len() && hs[k] == h;
            assert(hs[k] < issued);
        }
    }
    lemma_unregistered_receives_nothing(ds, hs, urls, h);
}

/// Index of the first occurrence of `h` in `v`, if any.
fn find_handle(v: &Vec<u64>, h: u64) -> (r: Option<usize>)
    ensures
        match r {
            Some(i) => 0 <= i < v@.len() && v@[i as int] == h && forall|k: int|
                0 <= k < i ==> v@[k] != h,
            None => !v@.contains(h),
        },
{
    let mut i: usize = 0;
    while i < v.len()
        invariant
            0 <= i <= v@.len(),
            forall|k: int| 0 <= k < i ==> v@[k] != h,
        decreases v@.len() - i,
    {
        if v[i] == h {
            return Some(i);
        }
        i = i + 1;
    }
    None
}

} // verus!
