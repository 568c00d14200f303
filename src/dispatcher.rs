//! The event dispatcher: a registry that maps each event kind to at most one
//! handler, the one registered last for it.
use vstd::prelude::*;

use crate::events::{kind_of, type_index, EventType, RGEvent, EVENT_TYPE_COUNT};

verus! {

/// A registry of handlers, one slot per event kind. A handler is a value that
/// the dispatcher's owner acts on when an event of its kind is dispatched; it
/// has no access to the event's handled flag.
pub struct EventDispatcher<H> {
    slots: Vec<Option<H>>,
}

impl<H> View for EventDispatcher<H> {
    type V = Map<EventType, H>;

    /// The handler registered for each kind that has one.
    closed spec fn view(&self) -> Map<EventType, H> {
        Map::new(
            |t: EventType| self.slots@[type_index(t) as int] is Some,
            |t: EventType| self.slots@[type_index(t) as int]->Some_0,
        )
    }
}

impl<H> EventDispatcher<H> {
    /// Every kind has its slot.
    pub closed spec fn wf(&self) -> bool {
        self.slots@.len() == EVENT_TYPE_COUNT
    }

    /// A registry with no handlers.
    pub fn new() -> (r: EventDispatcher<H>)
        ensures
            r.wf(),
            r@ == Map::<EventType, H>::empty(),
    {
        let mut slots: Vec<Option<H>> = Vec::new();
        for i in 0..EVENT_TYPE_COUNT
            invariant
                slots@.len() == i,
                forall|j: int| 0 <= j < i ==> slots@[j] is None,
        {
            slots.push(None);
        }
        let r = EventDispatcher { slots };
        assert(r@ =~= Map::<EventType, H>::empty());
        r
    }

    /// Installs `handler` for `kind`, replacing the handler registered for it
    /// before, if any. Other kinds keep theirs.
    pub fn register(&mut self, kind: EventType, handler: H)
        requires
            old(self).wf(),
        ensures
            final(self).wf(),
            final(self)@ == old(self)@.insert(kind, handler),
    {
        let i = kind.index();
        self.slots.set(i, Some(handler));
        assert(self@ =~= old(self)@.insert(kind, handler));
    }

    /// The handler registered for `kind`, if any.
    pub fn handler(&self, kind: EventType) -> (r: Option<&H>)
        requires
            self.wf(),
        ensures
            match r {
                Some(h) => self@.contains_key(kind) && *h == self@[kind],
                None => !self@.contains_key(kind),
            },
    {
        match &self.slots[kind.index()] {
            Some(h) => Some(h),
            None => None,
        }
    }

    /// The handler registered for the kind of `event`, which the caller then
    /// runs on the event's payload; `None`, and nothing to do, if that kind
    /// has no handler.
    pub fn dispatch(&self, event: &RGEvent) -> (r: Option<&H>)
        requires
            self.wf(),
        ensures
            match r {
                Some(h) => self@.contains_key(kind_of(*event)) && *h == self@[kind_of(*event)],
                None => !self@.contains_key(kind_of(*event)),
            },
    {
        self.handler(event.get_type())
    }
}

} // verus!
