//! The layer stack: an ordered sequence of layers with a movable boundary
//! that keeps regular layers (below it, in push order) under overlays (from it
//! on, in push order).
use vstd::prelude::*;

use crate::events::Event;

verus! {

/// A hook of a layer that the stack calls.
#[derive(Clone, Copy, PartialEq, Eq, Debug, Structural)]
pub enum Hook {
    Attach,
    Detach,
    Update,
    Event,
    Render,
}

/// A pluggable behaviour unit, implemented by the framework's users. The
/// stack calls `on_attach` once when the layer is pushed and `on_detach` once
/// when it is popped, `on_update` and `on_render` once per frame, and
/// `on_event` while an event propagates down to it.
///
/// What an implementation promises: the identity `get_id` reports is fixed,
/// no hook changes it; every hook adds its own entry to the record of hooks
/// the layer has received; and `on_event` leaves the event's payload as it is
/// and never clears its handled flag.
pub trait Layer {
    /// The layer's identity. Closed: for a layer type in general nothing is
    /// known of it but what the methods below say; the body only lets an
    /// implementation leave it out.
    closed spec fn spec_id(&self) -> usize {
        0
    }

    /// The hooks the layer has received, oldest first. Closed, as
    /// `spec_id` is.
    closed spec fn spec_hooks(&self) -> Seq<Hook> {
        Seq::empty()
    }

    fn on_attach(&mut self)
        ensures
            final(self).spec_id() == old(self).spec_id(),
            final(self).spec_hooks() == old(self).spec_hooks().push(Hook::Attach),
    ;

    fn on_detach(&mut self)
        ensures
            final(self).spec_id() == old(self).spec_id(),
            final(self).spec_hooks() == old(self).spec_hooks().push(Hook::Detach),
    ;

    fn on_update(&mut self)
        ensures
            final(self).spec_id() == old(self).spec_id(),
            final(self).spec_hooks() == old(self).spec_hooks().push(Hook::Update),
    ;

    fn on_event(&mut self, event: &mut Event)
        ensures
            final(self).spec_id() == old(self).spec_id(),
            final(self).spec_hooks() == old(self).spec_hooks().push(Hook::Event),
            final(event).spec_payload() == old(event).spec_payload(),
            old(event).spec_handled() ==> final(event).spec_handled(),
    ;

    fn on_render(&mut self)
        ensures
            final(self).spec_id() == old(self).spec_id(),
            final(self).spec_hooks() == old(self).spec_hooks().push(Hook::Render),
    ;

    /// The layer's identity.
    fn get_id(&self) -> (r: usize)
        ensures
            r == self.spec_id(),
    ;
}

/// `after` is `before` once it has received hook `h`: same identity, one more
/// entry in its record.
pub open spec fn received<L: Layer>(before: L, after: L, h: Hook) -> bool {
    &&& after.spec_id() == before.spec_id()
    &&& after.spec_hooks() == before.spec_hooks().push(h)
}

/// Every layer of `before` has received hook `h` once, and nothing else.
pub open spec fn all_received<L: Layer>(before: Seq<L>, after: Seq<L>, h: Hook) -> bool {
    &&& after.len() == before.len()
    &&& forall|i: int| 0 <= i < before.len() ==> received(#[trigger] before[i], after[i], h)
}

/// The topmost `k` layers of `before` have received one event each; the
/// others received nothing.
pub open spec fn top_received_event<L: Layer>(before: Seq<L>, after: Seq<L>, k: int) -> bool {
    &&& after.len() == before.len()
    &&& forall|i: int|
        0 <= i < before.len() ==> if i >= before.len() - k {
            received(#[trigger] before[i], after[i], Hook::Event)
        } else {
            after[i] == before[i]
        }
}

/// What the stack holds: the identities of its layers, bottom first, and the
/// index that separates regular layers from overlays.
pub struct StackView {
    pub ids: Seq<usize>,
    pub boundary: nat,
}

/// The first index in `[lo, hi)` at which `ids` holds `id`, if any.
pub open spec fn find_in(ids: Seq<usize>, id: usize, lo: int, hi: int) -> Option<int>
    decreases hi - lo,
{
    if lo >= hi {
        None
    } else if ids[lo] == id {
        Some(lo)
    } else {
        find_in(ids, id, lo + 1, hi)
    }
}

impl StackView {
    /// The stack with no layers.
    pub open spec fn empty() -> StackView {
        StackView { ids: Seq::empty(), boundary: 0 }
    }

    /// The boundary lies within the sequence.
    pub open spec fn valid(self) -> bool {
        self.boundary <= self.ids.len()
    }

    /// After pushing a regular layer: it stands at the boundary, which moves up
    /// by one.
    pub open spec fn push_layer(self, id: usize) -> StackView {
        StackView { ids: self.ids.insert(self.boundary as int, id), boundary: self.boundary + 1 }
    }

    /// After pushing an overlay: it stands on top, and the boundary stays.
    pub open spec fn push_overlay(self, id: usize) -> StackView {
        StackView { ids: self.ids.push(id), boundary: self.boundary }
    }

    /// Where `pop_layer(id)` finds its layer: the first index below the boundary
    /// that holds `id`.
    pub open spec fn find_layer(self, id: usize) -> Option<int> {
        find_in(self.ids, id, 0, self.boundary as int)
    }

    /// Where `pop_overlay(id)` finds its overlay: the first index from the
    /// boundary on that holds `id`.
    pub open spec fn find_overlay(self, id: usize) -> Option<int> {
        find_in(self.ids, id, self.boundary as int, self.ids.len() as int)
    }

    /// After `pop_layer(id)`: the layer found is gone and the boundary moves
    /// down by one; if none is found, nothing changes.
    pub open spec fn pop_layer(self, id: usize) -> StackView {
        match self.find_layer(id) {
            Some(i) => StackView { ids: self.ids.remove(i), boundary: (self.boundary - 1) as nat },
            None => self,
        }
    }

    /// After `pop_overlay(id)`: the overlay found is gone; if none is found,
    /// nothing changes. The boundary stays either way.
    pub open spec fn pop_overlay(self, id: usize) -> StackView {
        match self.find_overlay(id) {
            Some(i) => StackView { ids: self.ids.remove(i), boundary: self.boundary },
            None => self,
        }
    }
}

/// What `find_in` returns lies in range and holds `id`, and no earlier index
/// in range does; when it returns nothing, no index in range holds `id`.
pub proof fn lemma_find_in(ids: Seq<usize>, id: usize, lo: int, hi: int)
    requires
        0 <= lo,
        hi <= ids.len(),
    ensures
        match find_in(ids, id, lo, hi) {
            Some(i) => lo <= i < hi && ids[i] == id && forall|j: int| lo <= j < i ==> ids[j] != id,
            None => forall|j: int| lo <= j < hi ==> ids[j] != id,
        },
    decreases hi - lo,
{
    if lo < hi && ids[lo] != id {
        lemma_find_in(ids, id, lo + 1, hi);
    }
}

/// An index in range that holds `id`, with none before it in range that
/// does, is what `find_in` returns.
pub proof fn lemma_find_in_first(ids: Seq<usize>, id: usize, lo: int, hi: int, i: int)
    requires
        lo <= i < hi,
        ids[i] == id,
        forall|j: int| lo <= j < i ==> ids[j] != id,
    ensures
        find_in(ids, id, lo, hi) == Some(i),
    decreases hi - lo,
{
    if lo < i {
        lemma_find_in_first(ids, id, lo + 1, hi, i);
    }
}

/// Popping a regular layer whose identity is nowhere below the boundary
/// changes nothing; popping one that is there removes exactly one element and
/// moves the boundary down by exactly one.
pub proof fn lemma_pop_layer_boundary(v: StackView, id: usize)
    requires
        v.valid(),
    ensures
        (forall|i: int| 0 <= i < v.boundary ==> v.ids[i] != id) ==> v.pop_layer(id) == v,
        (exists|i: int| 0 <= i < v.boundary && v.ids[i] == id) ==> {
            &&& v.pop_layer(id).boundary == v.boundary - 1
            &&& v.pop_layer(id).ids.len() == v.ids.len() - 1
            &&& v.pop_layer(id).valid()
        },
{
    lemma_find_in(v.ids, id, 0, v.boundary as int);
}

/// A change to a layer stack, named by the identity it pushes or pops.
#[derive(Clone, Copy, PartialEq, Eq, Debug, Structural)]
pub enum StackOp {
    PushLayer(usize),
    PushOverlay(usize),
    PopLayer(usize),
    PopOverlay(usize),
}

impl StackView {
    /// The stack after `op`.
    pub open spec fn apply(self, op: StackOp) -> StackView {
        match op {
            StackOp::PushLayer(id) => self.push_layer(id),
            StackOp::PushOverlay(id) => self.push_overlay(id),
            StackOp::PopLayer(id) => self.pop_layer(id),
            StackOp::PopOverlay(id) => self.pop_overlay(id),
        }
    }
}

/// The stack that `ops`, applied in order, make of an empty stack.
pub open spec fn run_ops(ops: Seq<StackOp>) -> StackView
    decreases ops.len(),
{
    if ops.len() == 0 {
        StackView::empty()
    } else {
        run_ops(ops.drop_last()).apply(ops.last())
    }
}

/// The number of regular layers pushed by `ops`, less the number of regular
/// layers that the pops among `ops` found and removed.
pub open spec fn net_layers(ops: Seq<StackOp>) -> int
    decreases ops.len(),
{
    if ops.len() == 0 {
        0
    } else {
        let prev = run_ops(ops.drop_last());
        net_layers(ops.drop_last()) + match ops.last() {
            StackOp::PushLayer(_) => 1int,
            StackOp::PopLayer(id) => if prev.find_layer(id).is_some() {
                -1int
            } else {
                0int
            },
            _ => 0int,
        }
    }
}

/// For each element of the stack that `ops` make, whether it was pushed as a
/// regular layer (`true`) or as an overlay (`false`).
pub open spec fn pushed_as_layer(ops: Seq<StackOp>) -> Seq<bool>
    decreases ops.len(),
{
    if ops.len() == 0 {
        Seq::empty()
    } else {
        let prev = run_ops(ops.drop_last());
        let tags = pushed_as_layer(ops.drop_last());
        match ops.last() {
            StackOp::PushLayer(_) => tags.insert(prev.boundary as int, true),
            StackOp::PushOverlay(_) => tags.push(false),
            StackOp::PopLayer(id) => match prev.find_layer(id) {
                Some(i) => tags.remove(i),
                None => tags,
            },
            StackOp::PopOverlay(id) => match prev.find_overlay(id) {
                Some(i) => tags.remove(i),
                None => tags,
            },
        }
    }
}

/// Whatever pushes and pops are made on an empty stack, every element pushed
/// as a regular layer stands below the boundary, every element pushed as an
/// overlay stands at or above it, and the boundary equals the number of
/// regular layers pushed less the number successfully popped.
pub proof fn lemma_regions(ops: Seq<StackOp>)
    ensures
        run_ops(ops).valid(),
        pushed_as_layer(ops).len() == run_ops(ops).ids.len(),
        forall|i: int|
            0 <= i < pushed_as_layer(ops).len() ==> (pushed_as_layer(ops)[i] <==> i < run_ops(
                ops,
            ).boundary),
        run_ops(ops).boundary == net_layers(ops),
    decreases ops.len(),
{
    if ops.len() > 0 {
        let rest = ops.drop_last();
        lemma_regions(rest);
        let prev = run_ops(rest);
        let tags = pushed_as_layer(rest);
        let v = run_ops(ops);
        let t = pushed_as_layer(ops);
        match ops.last() {
            StackOp::PushLayer(_) => {
                assert forall|i: int| 0 <= i < t.len() implies (t[i] <==> i < v.boundary) by {
                    if i > prev.boundary {
                        assert(t[i] == tags[i - 1]);
                    } else if i < prev.boundary {
                        assert(t[i] == tags[i]);
                    }
                }
            },
            StackOp::PushOverlay(_) => {
                assert forall|i: int| 0 <= i < t.len() implies (t[i] <==> i < v.boundary) by {
                    if i < tags.len() {
                        assert(t[i] == tags[i]);
                    }
                }
            },
            StackOp::PopLayer(id) => {
                lemma_find_in(prev.ids, id, 0, prev.boundary as int);
                match prev.find_layer(id) {
                    Some(k) => {
                        assert forall|i: int| 0 <= i < t.len() implies (t[i] <==> i
                            < v.boundary) by {
                            if i >= k {
                                assert(t[i] == tags[i + 1]);
                            } else {
                                assert(t[i] == tags[i]);
                            }
                        }
                    },
                    None => {},
                }
            },
            StackOp::PopOverlay(id) => {
                lemma_find_in(prev.ids, id, prev.boundary as int, prev.ids.len() as int);
                match prev.find_overlay(id) {
                    Some(k) => {
                        assert forall|i: int| 0 <= i < t.len() implies (t[i] <==> i
                            < v.boundary) by {
                            if i >= k {
                                assert(t[i] == tags[i + 1]);
                            } else {
                                assert(t[i] == tags[i]);
                            }
                        }
                    },
                    None => {},
                }
            },
        }
    }
}

/// One layer visited while an event propagates: its identity, and whether the
/// event was handled once that layer had seen it.
#[derive(Clone, Copy, PartialEq, Eq, Debug, Structural)]
pub struct Visit {
    pub layer_id: usize,
    pub handled: bool,
}

/// What propagating an event through layers with identities `ids` (bottom
/// first) does, given the layers visited and the event before and after: the
/// visits go from the top down, each layer at most once; every layer but the
/// last one visited left the event unhandled; the visits stop early only at a
/// layer after which the event is handled; and the event's final flag is the
/// one seen after the last visit. With no layers, the event is untouched.
pub open spec fn propagated(ids: Seq<usize>, visited: Seq<Visit>, before: Event, after: Event) -> bool {
    &&& visited.len() <= ids.len()
    &&& ids.len() > 0 ==> visited.len() > 0
    &&& forall|j: int| 0 <= j < visited.len() ==> visited[j].layer_id == ids[ids.len() - 1 - j]
    &&& forall|j: int| 0 <= j < visited.len() - 1 ==> !visited[j].handled
    &&& visited.len() < ids.len() ==> visited[visited.len() - 1].handled
    &&& visited.len() > 0 ==> visited[visited.len() - 1].handled == after.spec_handled()
    &&& visited.len() == 0 ==> after == before
    &&& after.spec_payload() == before.spec_payload()
    &&& before.spec_handled() ==> after.spec_handled()
}

struct Entry<L> {
    id: usize,
    layer: L,
}

/// An ordered collection of layers: regular layers below the boundary, in the
/// order they were pushed, and overlays from the boundary on, in the order
/// they were pushed. Each layer is known by the identity it reported when it
/// was pushed.
pub struct LayerStack<L: Layer> {
    entries: Vec<Entry<L>>,
    insert_pos: usize,
}

impl<L: Layer> View for LayerStack<L> {
    type V = StackView;

    closed spec fn view(&self) -> StackView {
        StackView {
            ids: self.entries@.map_values(|e: Entry<L>| e.id),
            boundary: self.insert_pos as nat,
        }
    }
}

impl<L: Layer> LayerStack<L> {
    /// The layers themselves, bottom first, in step with `self@.ids`.
    pub closed spec fn spec_layers(&self) -> Seq<L> {
        self.entries@.map_values(|e: Entry<L>| e.layer)
    }

    /// The boundary lies within the stack, and there is one layer per
    /// identity, whose own identity it is.
    pub open spec fn wf(&self) -> bool {
        &&& self@.valid()
        &&& self.spec_layers().len() == self@.ids.len()
        &&& forall|i: int|
            0 <= i < self@.ids.len() ==> #[trigger] self@.ids[i] == self.spec_layers()[i].spec_id()
    }

    /// An empty stack.
    pub fn new() -> (r: LayerStack<L>)
        ensures
            r@ == StackView::empty(),
            r.spec_layers() == Seq::<L>::empty(),
            r.wf(),
    {
        let r = LayerStack { entries: Vec::new(), insert_pos: 0 };
        assert(r@.ids =~= Seq::<usize>::empty());
        assert(r.spec_layers() =~= Seq::<L>::empty());
        r
    }

    /// The number of layers and overlays.
    pub fn len(&self) -> (r: usize)
        ensures
            r == self@.ids.len(),
    {
        self.entries.len()
    }

    /// The index that separates regular layers from overlays.
    pub fn boundary(&self) -> (r: usize)
        ensures
            r == self@.boundary,
    {
        self.insert_pos
    }

    /// The identities of the layers, bottom first.
    pub fn ids(&self) -> (r: Vec<usize>)
        ensures
            r@ == self@.ids,
    {
        let mut r: Vec<usize> = Vec::new();
        let n = self.entries.len();
        for i in 0..n
            invariant
                n == self.entries.len(),
                r@ == self@.ids.subrange(0, i as int),
        {
            r.push(self.entries[i].id);
            assert(r@ =~= self@.ids.subrange(0, i + 1));
        }
        assert(r@ =~= self@.ids);
        r
    }

    /// The layer at `index`, counted from the bottom.
    pub fn get(&self, index: usize) -> (r: Option<&L>)
        requires
            self.wf(),
        ensures
            index < self@.ids.len() ==> r == Some(&self.spec_layers()[index as int]),
            index >= self@.ids.len() ==> r is None,
    {
        if index < self.entries.len() {
            Some(&self.entries[index].layer)
        } else {
            None
        }
    }

    /// Inserts `layer` at the boundary, above every regular layer and below
    /// every overlay, moves the boundary up by one, then attaches the layer.
    /// Returns the layer's identity. No other layer receives anything.
    pub fn push_layer(&mut self, layer: L) -> (id: usize)
        requires
            old(self).wf(),
        ensures
            final(self).wf(),
            id == layer.spec_id(),
            final(self)@ == old(self)@.push_layer(id),
            final(self).spec_layers() == old(self).spec_layers().insert(
                old(self)@.boundary as int,
                final(self).spec_layers()[old(self)@.boundary as int],
            ),
            received(layer, final(self).spec_layers()[old(self)@.boundary as int], Hook::Attach),
    {
        assert(self@.ids.len() == self.entries@.len());
        let ghost pushed = layer;
        let id = layer.get_id();
        let pos = self.insert_pos;
        self.entries.insert(pos, Entry { id, layer });
        let n = self.entries.len();
        assert(pos < n);
        self.insert_pos = pos + 1;
        self.entries[pos].layer.on_attach();
        assert(self@.ids =~= old(self)@.push_layer(id).ids);
        assert(self.spec_layers() =~= old(self).spec_layers().insert(
            old(self)@.boundary as int,
            self.spec_layers()[old(self)@.boundary as int],
        ));
        assert forall|i: int| 0 <= i < self@.ids.len() implies #[trigger] self@.ids[i]
            == self.spec_layers()[i].spec_id() by {
            if i > pos {
                assert(self@.ids[i] == old(self)@.ids[i - 1]);
            }
        }
        id
    }

    /// Puts `overlay` on top of the stack, leaving the boundary where it is,
    /// then attaches it. Returns the overlay's identity. No other layer
    /// receives anything.
    pub fn push_overlay(&mut self, overlay: L) -> (id: usize)
        requires
            old(self).wf(),
        ensures
            final(self).wf(),
            id == overlay.spec_id(),
            final(self)@ == old(self)@.push_overlay(id),
            final(self).spec_layers() == old(self).spec_layers().push(
                final(self).spec_layers().last(),
            ),
            received(overlay, final(self).spec_layers().last(), Hook::Attach),
    {
        let id = overlay.get_id();
        self.entries.push(Entry { id, layer: overlay });
        let last = self.entries.len() - 1;
        self.entries[last].layer.on_attach();
        assert(self@.ids =~= old(self)@.push_overlay(id).ids);
        assert(self.spec_layers() =~= old(self).spec_layers().push(self.spec_layers().last()));
        assert forall|i: int| 0 <= i < self@.ids.len() implies #[trigger] self@.ids[i]
            == self.spec_layers()[i].spec_id() by {
            if i < last {
                assert(self@.ids[i] == old(self)@.ids[i]);
            }
        }
        id
    }

    /// Looks for `id` among the regular layers only, lowest first. If it is
    /// there, removes that layer, moves the boundary down by one, detaches the
    /// layer and hands it back; otherwise changes nothing and returns `None`.
    /// No other layer receives anything.
    pub fn pop_layer(&mut self, id: usize) -> (r: Option<L>)
        requires
            old(self).wf(),
        ensures
            final(self).wf(),
            final(self)@ == old(self)@.pop_layer(id),
            r.is_some() == old(self)@.find_layer(id).is_some(),
            match old(self)@.find_layer(id) {
                Some(i) => {
                    &&& final(self).spec_layers() == old(self).spec_layers().remove(i)
                    &&& received(old(self).spec_layers()[i], r->Some_0, Hook::Detach)
                    &&& (r->Some_0).spec_id() == id
                },
                None => final(self).spec_layers() == old(self).spec_layers(),
            },
    {
        proof {
            lemma_find_in(self@.ids, id, 0, self@.boundary as int);
        }
        let mut i: usize = 0;
        while i < self.insert_pos
            invariant
                *self == *old(self),
                self.wf(),
                i <= self.insert_pos,
                forall|j: int| 0 <= j < i ==> self@.ids[j] != id,
            decreases self.insert_pos - i,
        {
            if self.entries[i].id == id {
                proof {
                    lemma_find_in_first(self@.ids, id, 0, self@.boundary as int, i as int);
                }
                assert(self@.ids[i as int] == id);
                self.insert_pos = self.insert_pos - 1;
                let mut entry = self.entries.remove(i);
                entry.layer.on_detach();
                assert(self@.ids =~= old(self)@.ids.remove(i as int));
                assert(self.spec_layers() =~= old(self).spec_layers().remove(i as int));
                assert forall|j: int| 0 <= j < self@.ids.len() implies #[trigger] self@.ids[j]
                    == self.spec_layers()[j].spec_id() by {
                    if j >= i {
                        assert(self@.ids[j] == old(self)@.ids[j + 1]);
                    } else {
                        assert(self@.ids[j] == old(self)@.ids[j]);
                    }
                }
                return Some(entry.layer);
            }
            i = i + 1;
        }
        None
    }

    /// Looks for `id` among the overlays only, lowest first. If it is there,
    /// removes that overlay, detaches it and hands it back; otherwise changes
    /// nothing and returns `None`. The boundary stays either way, and no other
    /// layer receives anything.
    pub fn pop_overlay(&mut self, id: usize) -> (r: Option<L>)
        requires
            old(self).wf(),
        ensures
            final(self).wf(),
            final(self)@ == old(self)@.pop_overlay(id),
            r.is_some() == old(self)@.find_overlay(id).is_some(),
            match old(self)@.find_overlay(id) {
                Some(i) => {
                    &&& final(self).spec_layers() == old(self).spec_layers().remove(i)
                    &&& received(old(self).spec_layers()[i], r->Some_0, Hook::Detach)
                    &&& (r->Some_0).spec_id() == id
                },
                None => final(self).spec_layers() == old(self).spec_layers(),
            },
    {
        proof {
            lemma_find_in(self@.ids, id, self@.boundary as int, self@.ids.len() as int);
        }
        let mut i: usize = self.insert_pos;
        while i < self.entries.len()
            invariant
                *self == *old(self),
                self.wf(),
                self.insert_pos <= i <= self.entries.len(),
                forall|j: int| self.insert_pos <= j < i ==> self@.ids[j] != id,
            decreases self.entries.len() - i,
        {
            if self.entries[i].id == id {
                proof {
                    lemma_find_in_first(
                        self@.ids,
                        id,
                        self@.boundary as int,
                        self@.ids.len() as int,
                        i as int,
                    );
                }
                assert(self@.ids[i as int] == id);
                let mut entry = self.entries.remove(i);
                entry.layer.on_detach();
                assert(self@.ids =~= old(self)@.ids.remove(i as int));
                assert(self.spec_layers() =~= old(self).spec_layers().remove(i as int));
                assert forall|j: int| 0 <= j < self@.ids.len() implies #[trigger] self@.ids[j]
                    == self.spec_layers()[j].spec_id() by {
                    if j >= i {
                        assert(self@.ids[j] == old(self)@.ids[j + 1]);
                    } else {
                        assert(self@.ids[j] == old(self)@.ids[j]);
                    }
                }
                return Some(entry.layer);
            }
            i = i + 1;
        }
        None
    }

    /// Updates every layer exactly once, bottom first, whatever has happened
    /// to any event; no layer receives any other hook. Returns the identities
    /// of the layers in the order they were updated.
    pub fn update(&mut self) -> (visited: Vec<usize>)
        requires
            old(self).wf(),
        ensures
            final(self).wf(),
            final(self)@ == old(self)@,
            all_received(old(self).spec_layers(), final(self).spec_layers(), Hook::Update),
            visited@ == old(self)@.ids,
    {
        let mut visited: Vec<usize> = Vec::new();
        let n = self.entries.len();
        for i in 0..n
            invariant
                n == self.entries.len(),
                self@ == old(self)@,
                self.wf(),
                forall|j: int|
                    0 <= j < i ==> received(
                        #[trigger] old(self).spec_layers()[j],
                        self.spec_layers()[j],
                        Hook::Update,
                    ),
                forall|j: int| i <= j < n ==> #[trigger] self.spec_layers()[j] == old(
                    self,
                ).spec_layers()[j],
                visited@ == old(self)@.ids.subrange(0, i as int),
        {
            let ghost before = self.spec_layers();
            let ghost before_entry = self.entries@[i as int];
            assert(before[i as int] == before_entry.layer);
            self.entries[i].layer.on_update();
            assert(self.spec_layers()[i as int] == self.entries@[i as int].layer);
            assert(received(before_entry.layer, self.entries@[i as int].layer, Hook::Update));
            assert(self@.ids =~= old(self)@.ids);
            assert(self.spec_layers() =~= before.update(i as int, self.spec_layers()[i as int]));
            assert(received(old(self).spec_layers()[i as int], self.spec_layers()[i as int], Hook::Update));
            visited.push(self.entries[i].id);
            assert(visited@ =~= old(self)@.ids.subrange(0, i + 1));
        }
        assert(visited@ =~= old(self)@.ids);
        visited
    }

    /// Renders every layer exactly once, bottom first; no layer receives any
    /// other hook.
    pub fn render(&mut self)
        requires
            old(self).wf(),
        ensures
            final(self).wf(),
            final(self)@ == old(self)@,
            all_received(old(self).spec_layers(), final(self).spec_layers(), Hook::Render),
    {
        let n = self.entries.len();
        for i in 0..n
            invariant
                n == self.entries.len(),
                self@ == old(self)@,
                self.wf(),
                forall|j: int|
                    0 <= j < i ==> received(
                        #[trigger] old(self).spec_layers()[j],
                        self.spec_layers()[j],
                        Hook::Render,
                    ),
                forall|j: int| i <= j < n ==> #[trigger] self.spec_layers()[j] == old(
                    self,
                ).spec_layers()[j],
        {
            let ghost before = self.spec_layers();
            let ghost before_entry = self.entries@[i as int];
            assert(before[i as int] == before_entry.layer);
            self.entries[i].layer.on_render();
            assert(self.spec_layers()[i as int] == self.entries@[i as int].layer);
            assert(received(before_entry.layer, self.entries@[i as int].layer, Hook::Render));
            assert(self@.ids =~= old(self)@.ids);
            assert(self.spec_layers() =~= before.update(i as int, self.spec_layers()[i as int]));
            assert(received(old(self).spec_layers()[i as int], self.spec_layers()[i as int], Hook::Render));
        }
    }

    /// Hands `event` to the layers from the topmost down, and stops right after
    /// the first layer that leaves the event handled: the layers below it never
    /// see it. The topmost layer sees the event even if it came in handled.
    /// Each layer visited receives the event exactly once, and no other layer
    /// receives anything. Returns the layers visited, in order, with the state
    /// of the event's flag after each.
    pub fn on_event(&mut self, event: &mut Event) -> (visited: Vec<Visit>)
        requires
            old(self).wf(),
        ensures
            final(self).wf(),
            final(self)@ == old(self)@,
            propagated(old(self)@.ids, visited@, *old(event), *final(event)),
            top_received_event(old(self).spec_layers(), final(self).spec_layers(), visited.len() as int),
    {
        let mut visited: Vec<Visit> = Vec::new();
        let n = self.entries.len();
        let mut k: usize = n;
        while k > 0
            invariant
                n == self.entries.len(),
                self@ == old(self)@,
                self.wf(),
                k <= n,
                visited.len() == n - k,
                forall|j: int|
                    0 <= j < visited.len() ==> visited@[j].layer_id == old(self)@.ids[n - 1 - j],
                forall|j: int| 0 <= j < visited.len() ==> !visited@[j].handled,
                visited.len() == 0 ==> *event == *old(event),
                visited.len() > 0 ==> !event.spec_handled(),
                event.spec_payload() == old(event).spec_payload(),
                old(event).spec_handled() ==> event.spec_handled(),
                top_received_event(old(self).spec_layers(), self.spec_layers(), (n - k) as int),
            decreases k,
        {
            k = k - 1;
            let ghost before = self.spec_layers();
            self.entries[k].layer.on_event(event);
            assert(self@.ids =~= old(self)@.ids);
            assert(self.spec_layers() =~= before.update(k as int, self.spec_layers()[k as int]));
            let handled = event.is_handled();
            visited.push(Visit { layer_id: self.entries[k].id, handled });
            if handled {
                return visited;
            }
        }
        visited
    }

    /// Removes every layer and overlay, topmost first, detaching each exactly
    /// once, and hands them back in that order.
    pub fn clear(&mut self) -> (detached: Vec<L>)
        requires
            old(self).wf(),
        ensures
            final(self).wf(),
            final(self)@ == StackView::empty(),
            detached.len() == old(self)@.ids.len(),
            forall|j: int|
                0 <= j < detached.len() ==> received(
                    old(self).spec_layers()[old(self)@.ids.len() - 1 - j],
                    #[trigger] detached@[j],
                    Hook::Detach,
                ),
    {
        let ghost ids = old(self)@.ids;
        let ghost layers = old(self).spec_layers();
        let mut detached: Vec<L> = Vec::new();
        while self.entries.len() > 0
            invariant
                self.wf(),
                ids == old(self)@.ids,
                layers == old(self).spec_layers(),
                self@.ids.len() <= ids.len(),
                self@.ids == ids.subrange(0, self@.ids.len() as int),
                self.spec_layers() == layers.subrange(0, self@.ids.len() as int),
                detached.len() == ids.len() - self@.ids.len(),
                forall|j: int|
                    0 <= j < detached.len() ==> received(
                        layers[ids.len() - 1 - j],
                        #[trigger] detached@[j],
                        Hook::Detach,
                    ),
            decreases self.entries.len(),
        {
            assert(self@.ids.len() == self.entries@.len());
            let ghost before = self.entries@;
            let ghost before_layers = self.spec_layers();
            if self.insert_pos == self.entries.len() {
                self.insert_pos = self.insert_pos - 1;
            }
            let mut entry = self.entries.pop().unwrap();
            assert(entry.layer == before_layers[before.len() - 1]);
            assert(before_layers[before.len() - 1] == layers[before.len() - 1]);
            assert(self.entries@ =~= before.drop_last());
            entry.layer.on_detach();
            detached.push(entry.layer);
            assert(self@.ids =~= ids.subrange(0, self@.ids.len() as int));
            assert(self.spec_layers() =~= layers.subrange(0, self@.ids.len() as int));
        }
        assert(self@.ids =~= Seq::<usize>::empty());
        detached
    }
}

} // verus!
