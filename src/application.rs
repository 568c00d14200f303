//! The application: the dispatcher, the layer stack and the running flag, and
//! the decisions that each frame of the main loop makes with them. The loop
//! itself, with the window it polls and presents, belongs to the caller.
use vstd::prelude::*;

use crate::dispatcher::EventDispatcher;
use crate::events::{kind_of, event_of_native, Event, EventType, NativeEvent};
use crate::layers::{
    all_received, propagated, received, top_received_event, Hook, Layer, LayerStack, StackView,
    Visit,
};

verus! {

/// What the application does when an event of a kind registered with it is
/// dispatched.
#[derive(Clone, Copy, PartialEq, Eq, Debug, Structural)]
pub enum AppCommand {
    /// Clear the running flag, so that the loop stops at its next check.
    Quit,
}

/// The handlers that a new application has: closing the window quits.
pub open spec fn initial_handlers() -> Map<EventType, AppCommand> {
    Map::empty().insert(EventType::WindowClose, AppCommand::Quit)
}

/// Whether dispatching an event of kind `kind` to `handlers` stops the loop.
pub open spec fn quits(handlers: Map<EventType, AppCommand>, kind: EventType) -> bool {
    handlers.contains_key(kind)
}

/// One event handled during a frame: the event as the layers left it, and
/// the layers it visited, top first.
pub struct EventRecord {
    pub event: Event,
    pub visited: Vec<Visit>,
}

/// What one iteration of the main loop did: a record per polled
/// notification, in order, and the identities of the layers updated.
pub struct FrameReport {
    pub events: Vec<EventRecord>,
    pub updated: Vec<usize>,
}

/// How many layers each of `records` visited, in order.
pub open spec fn visit_counts(records: Seq<EventRecord>) -> Seq<int> {
    records.map_values(|r: EventRecord| r.visited@.len() as int)
}

/// The event hooks that the layer at index `i` of a stack of `n` layers
/// receives when successive events visit the topmost `counts[0]`,
/// `counts[1]`, ... layers.
pub open spec fn events_seen(counts: Seq<int>, n: int, i: int) -> Seq<Hook>
    decreases counts.len(),
{
    if counts.len() == 0 {
        Seq::empty()
    } else {
        events_seen(counts.drop_last(), n, i) + if i >= n - counts.last() {
            seq![Hook::Event]
        } else {
            Seq::empty()
        }
    }
}

/// The owner of the dispatcher, the layer stack and the running flag.
pub struct Application<L: Layer> {
    dispatcher: EventDispatcher<AppCommand>,
    layer_stack: LayerStack<L>,
    running: bool,
}

impl<L: Layer> Application<L> {
    /// Whether the main loop is to go on.
    pub closed spec fn spec_running(&self) -> bool {
        self.running
    }

    /// The layer stack.
    pub closed spec fn spec_layers(&self) -> StackView {
        self.layer_stack@
    }

    /// The layers themselves, bottom first.
    pub closed spec fn spec_layer_values(&self) -> Seq<L> {
        self.layer_stack.spec_layers()
    }

    /// The handler registered for each kind that has one.
    pub closed spec fn spec_handlers(&self) -> Map<EventType, AppCommand> {
        self.dispatcher@
    }

    /// The parts are well formed, and closing the window always quits.
    pub closed spec fn wf(&self) -> bool {
        &&& self.dispatcher.wf()
        &&& self.layer_stack.wf()
        &&& self.dispatcher@.contains_key(EventType::WindowClose)
    }

    /// A running application with no layers, whose dispatcher quits when the
    /// window is closed.
    pub fn new() -> (r: Application<L>)
        ensures
            r.wf(),
            r.spec_running(),
            r.spec_layers() == StackView::empty(),
            r.spec_handlers() == initial_handlers(),
    {
        let mut dispatcher = EventDispatcher::new();
        dispatcher.register(EventType::WindowClose, AppCommand::Quit);
        Application { dispatcher, layer_stack: LayerStack::new(), running: true }
    }

    /// Whether the main loop is to go on.
    pub fn is_running(&self) -> (r: bool)
        ensures
            r == self.spec_running(),
    {
        self.running
    }

    /// The layer stack, to inspect.
    pub fn layers(&self) -> (r: &LayerStack<L>)
        ensures
            r@ == self.spec_layers(),
            r.spec_layers() == self.spec_layer_values(),
            self.wf() ==> r.wf(),
    {
        &self.layer_stack
    }

    /// Installs `command` for events of kind `kind`, replacing what was
    /// registered for that kind.
    pub fn register_handler(&mut self, kind: EventType, command: AppCommand)
        requires
            old(self).wf(),
        ensures
            final(self).wf(),
            final(self).spec_handlers() == old(self).spec_handlers().insert(kind, command),
            final(self).spec_running() == old(self).spec_running(),
            final(self).spec_layers() == old(self).spec_layers(),
    {
        self.dispatcher.register(kind, command);
    }

    /// Pushes a regular layer; see [`LayerStack::push_layer`].
    pub fn push_layer(&mut self, layer: L) -> (id: usize)
        requires
            old(self).wf(),
        ensures
            final(self).wf(),
            id == layer.spec_id(),
            final(self).spec_layers() == old(self).spec_layers().push_layer(id),
            received(
                layer,
                final(self).spec_layer_values()[old(self).spec_layers().boundary as int],
                Hook::Attach,
            ),
            final(self).spec_layer_values() == old(self).spec_layer_values().insert(
                old(self).spec_layers().boundary as int,
                final(self).spec_layer_values()[old(self).spec_layers().boundary as int],
            ),
            final(self).spec_running() == old(self).spec_running(),
            final(self).spec_handlers() == old(self).spec_handlers(),
    {
        self.layer_stack.push_layer(layer)
    }

    /// Pushes an overlay; see [`LayerStack::push_overlay`].
    pub fn push_overlay(&mut self, overlay: L) -> (id: usize)
        requires
            old(self).wf(),
        ensures
            final(self).wf(),
            id == overlay.spec_id(),
            final(self).spec_layers() == old(self).spec_layers().push_overlay(id),
            received(overlay, final(self).spec_layer_values().last(), Hook::Attach),
            final(self).spec_layer_values() == old(self).spec_layer_values().push(
                final(self).spec_layer_values().last(),
            ),
            final(self).spec_running() == old(self).spec_running(),
            final(self).spec_handlers() == old(self).spec_handlers(),
    {
        self.layer_stack.push_overlay(overlay)
    }

    /// Pops a regular layer; see [`LayerStack::pop_layer`].
    pub fn pop_layer(&mut self, id: usize) -> (r: Option<L>)
        requires
            old(self).wf(),
        ensures
            final(self).wf(),
            final(self).spec_layers() == old(self).spec_layers().pop_layer(id),
            r.is_some() == old(self).spec_layers().find_layer(id).is_some(),
            match old(self).spec_layers().find_layer(id) {
                Some(i) => {
                    &&& final(self).spec_layer_values() == old(self).spec_layer_values().remove(i)
                    &&& received(old(self).spec_layer_values()[i], r->Some_0, Hook::Detach)
                    &&& (r->Some_0).spec_id() == id
                },
                None => final(self).spec_layer_values() == old(self).spec_layer_values(),
            },
            final(self).spec_running() == old(self).spec_running(),
            final(self).spec_handlers() == old(self).spec_handlers(),
    {
        self.layer_stack.pop_layer(id)
    }

    /// Pops an overlay; see [`LayerStack::pop_overlay`].
    pub fn pop_overlay(&mut self, id: usize) -> (r: Option<L>)
        requires
            old(self).wf(),
        ensures
            final(self).wf(),
            final(self).spec_layers() == old(self).spec_layers().pop_overlay(id),
            r.is_some() == old(self).spec_layers().find_overlay(id).is_some(),
            match old(self).spec_layers().find_overlay(id) {
                Some(i) => {
                    &&& final(self).spec_layer_values() == old(self).spec_layer_values().remove(i)
                    &&& received(old(self).spec_layer_values()[i], r->Some_0, Hook::Detach)
                    &&& (r->Some_0).spec_id() == id
                },
                None => final(self).spec_layer_values() == old(self).spec_layer_values(),
            },
            final(self).spec_running() == old(self).spec_running(),
            final(self).spec_handlers() == old(self).spec_handlers(),
    {
        self.layer_stack.pop_overlay(id)
    }

    /// Tears the layer stack down: every layer and overlay is removed and
    /// detached once, topmost first; see [`LayerStack::clear`].
    pub fn clear_layers(&mut self) -> (detached: Vec<L>)
        requires
            old(self).wf(),
        ensures
            final(self).wf(),
            final(self).spec_layers() == StackView::empty(),
            detached.len() == old(self).spec_layers().ids.len(),
            forall|j: int|
                0 <= j < detached.len() ==> received(
                    old(self).spec_layer_values()[old(self).spec_layers().ids.len() - 1 - j],
                    #[trigger] detached@[j],
                    Hook::Detach,
                ),
            final(self).spec_running() == old(self).spec_running(),
            final(self).spec_handlers() == old(self).spec_handlers(),
    {
        self.layer_stack.clear()
    }

    /// Handles one event: first the dispatcher, whose handler for the event's
    /// kind, if any, clears the running flag; then, whatever the dispatcher
    /// did, propagation through the layers from the top down. Returns the
    /// layers visited. An event that closes the window always clears the flag.
    pub fn on_event(&mut self, event: &mut Event) -> (visited: Vec<Visit>)
        requires
            old(self).wf(),
        ensures
            final(self).wf(),
            final(self).spec_running() == (old(self).spec_running() && !quits(
                old(self).spec_handlers(),
                kind_of(old(event).spec_payload()),
            )),
            kind_of(old(event).spec_payload()) == EventType::WindowClose
                ==> !final(self).spec_running(),
            final(self).spec_layers() == old(self).spec_layers(),
            final(self).spec_handlers() == old(self).spec_handlers(),
            propagated(old(self).spec_layers().ids, visited@, *old(event), *final(event)),
            top_received_event(
                old(self).spec_layer_values(),
                final(self).spec_layer_values(),
                visited.len() as int,
            ),
    {
        let payload = event.payload();
        match self.dispatcher.dispatch(&payload) {
            Some(AppCommand::Quit) => {
                self.running = false;
            },
            None => {},
        }
        self.layer_stack.on_event(event)
    }

    /// Updates every layer once, bottom first; see [`LayerStack::update`].
    pub fn update_layers(&mut self) -> (visited: Vec<usize>)
        requires
            old(self).wf(),
        ensures
            final(self).wf(),
            visited@ == old(self).spec_layers().ids,
            all_received(old(self).spec_layer_values(), final(self).spec_layer_values(), Hook::Update),
            final(self).spec_layers() == old(self).spec_layers(),
            final(self).spec_running() == old(self).spec_running(),
            final(self).spec_handlers() == old(self).spec_handlers(),
    {
        self.layer_stack.update()
    }

    /// Renders every layer once, bottom first.
    pub fn render_layers(&mut self)
        requires
            old(self).wf(),
        ensures
            final(self).wf(),
            final(self).spec_layers() == old(self).spec_layers(),
            all_received(old(self).spec_layer_values(), final(self).spec_layer_values(), Hook::Render),
            final(self).spec_running() == old(self).spec_running(),
            final(self).spec_handlers() == old(self).spec_handlers(),
    {
        self.layer_stack.render()
    }

    /// The decisions of one iteration of the main loop: each notification
    /// polled from the window, in order, becomes a fresh event that is
    /// dispatched and then propagated through the layers; then every layer is
    /// updated once. An event that quits does not cut the iteration short: the
    /// remaining events are still handled and the layers still updated, and
    /// the loop stops at its next check of [`Application::is_running`]. A
    /// window-close notification always quits. Returns, per notification, the
    /// event as the layers left it and the layers it visited, and the layers
    /// updated.
    pub fn step(&mut self, events: Vec<NativeEvent>) -> (r: FrameReport)
        requires
            old(self).wf(),
        ensures
            final(self).wf(),
            final(self).spec_running() == (old(self).spec_running() && forall|i: int|
                0 <= i < events.len() ==> !quits(
                    old(self).spec_handlers(),
                    kind_of(#[trigger] event_of_native(events@[i])),
                )),
            (exists|i: int|
                0 <= i < events.len() && kind_of(#[trigger] event_of_native(events@[i]))
                    == EventType::WindowClose) ==> !final(self).spec_running(),
            r.events.len() == events.len(),
            forall|i: int|
                0 <= i < events.len() ==> propagated(
                    old(self).spec_layers().ids,
                    (#[trigger] r.events@[i]).visited@,
                    Event::fresh(event_of_native(events@[i])),
                    r.events@[i].event,
                ),
            r.updated@ == old(self).spec_layers().ids,
            final(self).spec_layer_values().len() == old(self).spec_layer_values().len(),
            forall|i: int|
                0 <= i < old(self).spec_layer_values().len() ==> {
                    &&& (#[trigger] final(self).spec_layer_values()[i]).spec_id() == old(
                        self,
                    ).spec_layer_values()[i].spec_id()
                    &&& final(self).spec_layer_values()[i].spec_hooks() == old(
                        self,
                    ).spec_layer_values()[i].spec_hooks() + events_seen(
                        visit_counts(r.events@),
                        old(self).spec_layer_values().len() as int,
                        i,
                    ) + seq![Hook::Update]
                },
            final(self).spec_layers() == old(self).spec_layers(),
            final(self).spec_handlers() == old(self).spec_handlers(),
    {
        let n = events.len();
        let mut records: Vec<EventRecord> = Vec::new();
        for i in 0..n
            invariant
                n == events.len(),
                self.wf(),
                self.spec_layers() == old(self).spec_layers(),
                self.spec_handlers() == old(self).spec_handlers(),
                self.spec_running() == (old(self).spec_running() && forall|j: int|
                    0 <= j < i ==> !quits(
                        old(self).spec_handlers(),
                        kind_of(#[trigger] event_of_native(events@[j])),
                    )),
                records.len() == i,
                self.spec_layer_values().len() == old(self).spec_layer_values().len(),
                forall|l: int|
                    0 <= l < old(self).spec_layer_values().len() ==> {
                        &&& (#[trigger] self.spec_layer_values()[l]).spec_id() == old(
                            self,
                        ).spec_layer_values()[l].spec_id()
                        &&& self.spec_layer_values()[l].spec_hooks() == old(
                            self,
                        ).spec_layer_values()[l].spec_hooks() + events_seen(
                            visit_counts(records@),
                            old(self).spec_layer_values().len() as int,
                            l,
                        )
                    },
                forall|j: int|
                    0 <= j < i ==> propagated(
                        old(self).spec_layers().ids,
                        (#[trigger] records@[j]).visited@,
                        Event::fresh(event_of_native(events@[j])),
                        records@[j].event,
                    ),
        {
            let mut event = Event::from_native(events[i]);
            let ghost before = self.spec_layer_values();
            let ghost counts = visit_counts(records@);
            let visited = self.on_event(&mut event);
            records.push(EventRecord { event, visited });
            proof {
                let nl = old(self).spec_layer_values().len() as int;
                assert(visit_counts(records@).drop_last() =~= counts);
                assert forall|l: int| 0 <= l < nl implies {
                    &&& (#[trigger] self.spec_layer_values()[l]).spec_id() == old(
                        self,
                    ).spec_layer_values()[l].spec_id()
                    &&& self.spec_layer_values()[l].spec_hooks() == old(
                        self,
                    ).spec_layer_values()[l].spec_hooks() + events_seen(
                        visit_counts(records@),
                        nl,
                        l,
                    )
                } by {
                    assert(before[l] == before[l]);
                    let prior = old(self).spec_layer_values()[l].spec_hooks();
                    let es = events_seen(counts, nl, l);
                    if l >= nl - records@.last().visited@.len() {
                        assert(self.spec_layer_values()[l].spec_hooks() == before[l].spec_hooks().push(
                            Hook::Event,
                        ));
                        assert(prior + es + seq![Hook::Event] =~= (prior + es).push(Hook::Event));
                    } else {
                        assert(self.spec_layer_values()[l] == before[l]);
                        assert(prior + es + Seq::<Hook>::empty() =~= prior + es);
                    }
                }
            }
            let ghost handlers = old(self).spec_handlers();
            assert((forall|j: int|
                0 <= j < i + 1 ==> !quits(handlers, kind_of(#[trigger] event_of_native(events@[j]))))
                == ((forall|j: int|
                0 <= j < i ==> !quits(handlers, kind_of(#[trigger] event_of_native(events@[j]))))
                && !quits(handlers, kind_of(event_of_native(events@[i as int])))));
        }
        let ghost before = self.spec_layer_values();
        let updated = self.update_layers();
        proof {
            let nl = old(self).spec_layer_values().len() as int;
            assert forall|l: int| 0 <= l < nl implies {
                &&& (#[trigger] self.spec_layer_values()[l]).spec_id() == old(
                    self,
                ).spec_layer_values()[l].spec_id()
                &&& self.spec_layer_values()[l].spec_hooks() == old(
                    self,
                ).spec_layer_values()[l].spec_hooks() + events_seen(visit_counts(records@), nl, l)
                    + seq![Hook::Update]
            } by {
                assert(received(before[l], self.spec_layer_values()[l], Hook::Update));
                let a = old(self).spec_layer_values()[l].spec_hooks() + events_seen(
                    visit_counts(records@),
                    nl,
                    l,
                );
                assert(a + seq![Hook::Update] =~= a.push(Hook::Update));
            }
        }
        FrameReport { events: records, updated }
    }
}

/// Every well-formed application quits when the window is closed.
pub proof fn lemma_close_quits<L: Layer>(app: &Application<L>)
    requires
        app.wf(),
    ensures
        quits(app.spec_handlers(), EventType::WindowClose),
{
}

} // verus!
