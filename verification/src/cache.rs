//! The link cache: a single slot holding the most recently observed batch of
//! URLs, overwritten wholesale on every new event and queryable at any time,
//! including before any event has arrived.

use vstd::prelude::*;

verus! {

/// Single-slot store for the last observed link event.
///
/// A link event is an ordered batch of URL strings, modelled as a
/// `Seq<Seq<char>>`. The slot starts empty and is replaced (never merged)
/// each time a new event is ingested.
pub struct LinkCache {
    slot: Option<Vec<String>>,
}

impl View for LinkCache {
    type V = Option<Seq<Seq<char>>>;

    closed spec fn view(&self) -> Option<Seq<Seq<char>>> {
        self.slot.deep_view()
    }
}

impl LinkCache {
    /// A fresh cache holds nothing.
    pub fn new() -> (c: LinkCache)
        ensures
            c@ is None,
    {
        LinkCache { slot: None }
    }

    /// Unconditionally overwrite the stored event, whatever was there before.
    pub fn replace(&mut self, event: Vec<String>)
        ensures
            final(self)@ == Some(event.deep_view()),
    {
        self.slot = Some(event);
    }

    /// Snapshot read: a copy of the current event, or `None` if no event has
    /// ever been stored.
    pub fn get(&self) -> (r: Option<Vec<String>>)
        ensures
            r.deep_view() == self@,
    {
        match &self.slot {
            Some(event) => {
                let copy = clone_urls(event);
                Some(copy)
            },
            None => None,
        }
    }
}

/// Copy a batch of URL strings, preserving contents and order.
pub fn clone_urls(urls: &Vec<String>) -> (r: Vec<String>)
    ensures
        r.deep_view() == urls.deep_view(),
{
    let r = urls.clone();
    proof {
        assert(r.deep_view() =~~= urls.deep_view());
    }
    r
}

} // verus!
