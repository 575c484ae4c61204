//! The pipeline: an ordered stack of layers, each feeding the next.

use vstd::prelude::*;
use crate::key::KeyInput;
use crate::layer::{Layer, RemapLayer};
use crate::model::{LayerSpec, LayerState};

verus! {

/// The result of running events through a stack of layers.
pub struct PipeOutcome {
    /// What each layer carries afterwards.
    pub states: Seq<LayerState>,
    /// What the last layer emitted, in order.
    pub emitted: Seq<KeyInput>,
}

/// One event `e` enters layer `i` of the stack at `now`. Each event that
/// layer `i` emits for it runs through the layers below, one after the
/// other and each to the end, before the next. Below the last layer, `e` is
/// what comes out.
pub open spec fn feed_from(
    specs: Seq<LayerSpec>,
    states: Seq<LayerState>,
    i: int,
    e: KeyInput,
    now: u64,
) -> PipeOutcome
    decreases specs.len() - i, 0int,
{
    if i < 0 || i >= specs.len() {
        PipeOutcome { states, emitted: seq![e] }
    } else {
        let r = specs[i].step(states[i], e, now);
        feed_all_from(specs, states.update(i, r.next), i + 1, r.emitted, now)
    }
}

/// The events `events` enter layer `i` of the stack at `now`, in order: each
/// runs through to the end before the next one enters.
pub open spec fn feed_all_from(
    specs: Seq<LayerSpec>,
    states: Seq<LayerState>,
    i: int,
    events: Seq<KeyInput>,
    now: u64,
) -> PipeOutcome
    decreases specs.len() - i, events.len() + 1,
{
    if i < 0 || i >= specs.len() {
        PipeOutcome { states, emitted: events }
    } else if events.len() == 0 {
        PipeOutcome { states, emitted: Seq::empty() }
    } else {
        let a = feed_from(specs, states, i, events[0], now);
        let b = feed_all_from(specs, a.states, i, events.drop_first(), now);
        PipeOutcome { states: b.states, emitted: a.emitted + b.emitted }
    }
}

/// The events `events` enter layer `i` of the stack at `now`, and the stack
/// works layer by layer: layer `i` takes them all, one after the other; all
/// that it emits, in order, is what the layer below takes; and so on down.
pub open spec fn cascade_from(
    specs: Seq<LayerSpec>,
    states: Seq<LayerState>,
    i: int,
    events: Seq<KeyInput>,
    now: u64,
) -> PipeOutcome
    decreases specs.len() - i,
{
    if i < 0 || i >= specs.len() {
        PipeOutcome { states, emitted: events }
    } else {
        let r = specs[i].step_all(states[i], events, now);
        cascade_from(specs, states.update(i, r.next), i + 1, r.emitted, now)
    }
}

/// Time passes to `now` with no event arriving. From layer `i` down, each
/// layer in turn lets go of a held event that has outlived its limit, and
/// that event runs through the layers below like any other.
pub open spec fn advance_from(
    specs: Seq<LayerSpec>,
    states: Seq<LayerState>,
    i: int,
    now: u64,
) -> PipeOutcome
    decreases specs.len() - i,
{
    if i < 0 || i >= specs.len() {
        PipeOutcome { states, emitted: Seq::empty() }
    } else {
        let r = specs[i].timeout(states[i], now);
        let a = feed_all_from(specs, states.update(i, r.next), i + 1, r.emitted, now);
        let b = advance_from(specs, a.states, i + 1, now);
        PipeOutcome { states: b.states, emitted: a.emitted + b.emitted }
    }
}

/// The states of a stack at rest: every layer in its initial state, holding
/// nothing back.
pub open spec fn idle_states(specs: Seq<LayerSpec>) -> Seq<LayerState> {
    Seq::new(specs.len(), |i: int| specs[i].idle())
}

/// Running events through a stack leaves it with as many layers as before.
pub proof fn lemma_feed_keeps_len(
    specs: Seq<LayerSpec>,
    states: Seq<LayerState>,
    i: int,
    events: Seq<KeyInput>,
    now: u64,
)
    requires
        states.len() == specs.len(),
    ensures
        feed_all_from(specs, states, i, events, now).states.len() == specs.len(),
        events.len() > 0 ==> feed_from(specs, states, i, events[0], now).states.len()
            == specs.len(),
    decreases specs.len() - i, events.len() + 1,
{
    if 0 <= i < specs.len() && events.len() > 0 {
        let r = specs[i].step(states[i], events[0], now);
        lemma_feed_keeps_len(specs, states.update(i, r.next), i + 1, r.emitted, now);
        let a = feed_from(specs, states, i, events[0], now);
        lemma_feed_keeps_len(specs, a.states, i, events.drop_first(), now);
    }
}

/// Letting time pass leaves a stack with as many layers as before.
pub proof fn lemma_advance_keeps_len(
    specs: Seq<LayerSpec>,
    states: Seq<LayerState>,
    i: int,
    now: u64,
)
    requires
        states.len() == specs.len(),
    ensures
        advance_from(specs, states, i, now).states.len() == specs.len(),
    decreases specs.len() - i,
{
    if 0 <= i < specs.len() {
        let r = specs[i].timeout(states[i], now);
        lemma_feed_keeps_len(specs, states.update(i, r.next), i + 1, r.emitted, now);
        let a = feed_all_from(specs, states.update(i, r.next), i + 1, r.emitted, now);
        lemma_advance_keeps_len(specs, a.states, i + 1, now);
    }
}

/// Layer state `st` holds an event whose deadline is `x`.
pub open spec fn holds_until(st: LayerState, x: int) -> bool {
    st.pending matches Some(p) && p.deadline() == x
}

/// Layer state `st` holds no event whose deadline is before `x`.
pub open spec fn not_due_before(st: LayerState, x: int) -> bool {
    st.pending matches Some(p) ==> x <= p.deadline()
}

/// No layer holds an event.
pub open spec fn none_held(states: Seq<LayerState>) -> bool {
    forall|i: int| 0 <= i < states.len() ==> (#[trigger] states[i]).pending is None
}

/// `x` is the earliest deadline among the events that the layers hold.
pub open spec fn earliest_deadline_is(states: Seq<LayerState>, x: int) -> bool {
    &&& exists|i: int| 0 <= i < states.len() && holds_until(#[trigger] states[i], x)
    &&& forall|i: int| 0 <= i < states.len() ==> not_due_before(#[trigger] states[i], x)
}

/// A running stack of layers. What the first layer emits enters the second,
/// and so on; what the last one emits leaves the pipeline.
#[derive(Clone, Debug)]
pub struct Pipeline {
    layers: Vec<Layer>,
}

impl Pipeline {
    /// The declarations of the layers, first layer first.
    pub closed spec fn specs(&self) -> Seq<LayerSpec> {
        Seq::new(self.layers@.len(), |i: int| self.layers@[i].spec())
    }

    /// What each layer carries at this moment.
    pub closed spec fn states(&self) -> Seq<LayerState> {
        Seq::new(self.layers@.len(), |i: int| self.layers@[i].status())
    }

    /// A pipeline without layers: every event passes through it unchanged.
    pub fn new() -> (p: Pipeline)
        ensures
            p.specs() == Seq::<LayerSpec>::empty(),
            p.states() == Seq::<LayerState>::empty(),
    {
        Pipeline { layers: Vec::new() }
    }

    /// Adds a layer below the ones already there, at rest.
    pub fn push(&mut self, layer: RemapLayer)
        ensures
            final(self).specs() == old(self).specs().push(layer@),
            final(self).states() == old(self).states().push(layer@.idle()),
    {
        self.layers.push(Layer::new(layer));
    }

    /// The number of layers.
    pub fn len(&self) -> (n: usize)
        ensures
            n == self.specs().len(),
            n == self.states().len(),
    {
        self.layers.len()
    }

    /// What layer `i` carries at this moment, or `None` where there is no
    /// layer `i`.
    pub fn state_of(&self, i: usize) -> (st: Option<LayerState>)
        ensures
            i < self.states().len() ==> st == Some(self.states()[i as int]),
            i >= self.states().len() ==> st is None,
    {
        if i < self.layers.len() {
            Some(self.layers[i].current())
        } else {
            None
        }
    }

    fn feed_from(&mut self, i: usize, e: KeyInput, now: u64, out: &mut Vec<KeyInput>)
        ensures
            final(self).specs() == old(self).specs(),
            final(self).states() == feed_from(
                old(self).specs(),
                old(self).states(),
                i as int,
                e,
                now,
            ).states,
            final(out)@ == old(out)@ + feed_from(
                old(self).specs(),
                old(self).states(),
                i as int,
                e,
                now,
            ).emitted,
        decreases old(self).layers.len() - i, 0int,
    {
        if i >= self.layers.len() {
            out.push(e);
            return;
        }
        let emitted = self.layers[i].process(e, now);
        assert(self.specs() == old(self).specs());
        assert(self.states() == old(self).states().update(
            i as int,
            old(self).specs()[i as int].step(old(self).states()[i as int], e, now).next,
        ));
        self.feed_all_from(i + 1, &emitted, now, out);
    }

    fn feed_all_from(
        &mut self,
        i: usize,
        events: &Vec<KeyInput>,
        now: u64,
        out: &mut Vec<KeyInput>,
    )
        ensures
            final(self).specs() == old(self).specs(),
            final(self).states() == feed_all_from(
                old(self).specs(),
                old(self).states(),
                i as int,
                events@,
                now,
            ).states,
            final(out)@ == old(out)@ + feed_all_from(
                old(self).specs(),
                old(self).states(),
                i as int,
                events@,
                now,
            ).emitted,
        decreases old(self).layers.len() - i, events.len() + 1,
    {
        let ghost specs = self.specs();
        let ghost whole = feed_all_from(specs, self.states(), i as int, events@, now);
        let mut k: usize = 0;
        assert(events@.skip(0) == events@);
        while k < events.len()
            invariant
                k <= events.len(),
                self.specs() == specs,
                self.layers.len() == old(self).layers.len(),
                whole.states == feed_all_from(
                    specs,
                    self.states(),
                    i as int,
                    events@.skip(k as int),
                    now,
                ).states,
                old(out)@ + whole.emitted == out@ + feed_all_from(
                    specs,
                    self.states(),
                    i as int,
                    events@.skip(k as int),
                    now,
                ).emitted,
            decreases events.len() - k,
        {
            assert(events@.skip(k as int).drop_first() == events@.skip(k + 1));
            self.feed_from(i, events[k], now, out);
            k += 1;
        }
    }

    /// A pipeline of the given layers, first layer first, all at rest.
    pub fn from_layers(layers: Vec<RemapLayer>) -> (p: Pipeline)
        ensures
            p.specs() == Seq::new(layers@.len(), |i: int| layers@[i]@),
            p.states() == idle_states(p.specs()),
    {
        let mut p = Pipeline::new();
        for layer in it: layers
            invariant
                p.specs() == Seq::new(it.index() as nat, |i: int| it.seq()[i]@),
                p.states() == idle_states(p.specs()),
        {
            p.push(layer);
        }
        p
    }

    /// Feeds one event, arriving at `now`, into the first layer. Returns
    /// what leaves the last layer, in order.
    pub fn feed(&mut self, e: KeyInput, now: u64) -> (emitted: Vec<KeyInput>)
        ensures
            final(self).specs() == old(self).specs(),
            final(self).states() == feed_from(old(self).specs(), old(self).states(), 0, e, now).states,
            emitted@ == feed_from(old(self).specs(), old(self).states(), 0, e, now).emitted,
    {
        let mut out: Vec<KeyInput> = Vec::new();
        self.feed_from(0, e, now, &mut out);
        out
    }

    /// Lets time pass to `now` with no event arriving. Each layer in turn,
    /// first layer first, lets go of a held event that has outlived its
    /// limit; that event runs through the layers below. Returns what leaves
    /// the last layer, in order.
    pub fn advance(&mut self, now: u64) -> (emitted: Vec<KeyInput>)
        ensures
            final(self).specs() == old(self).specs(),
            final(self).states() == advance_from(old(self).specs(), old(self).states(), 0, now).states,
            emitted@ == advance_from(old(self).specs(), old(self).states(), 0, now).emitted,
    {
        let ghost specs = self.specs();
        let ghost whole = advance_from(specs, self.states(), 0, now);
        let mut out: Vec<KeyInput> = Vec::new();
        let mut i: usize = 0;
        while i < self.layers.len()
            invariant
                i <= self.layers.len(),
                self.specs() == specs,
                self.layers.len() == old(self).layers.len(),
                whole.states == advance_from(specs, self.states(), i as int, now).states,
                whole.emitted == out@ + advance_from(specs, self.states(), i as int, now).emitted,
            decreases self.layers.len() - i,
        {
            let ghost before = self.states();
            let flushed = self.layers[i].expire(now);
            assert(self.specs() == specs);
            assert(self.states() == before.update(
                i as int,
                specs[i as int].timeout(before[i as int], now).next,
            ));
            self.feed_all_from(i + 1, &flushed, now, &mut out);
            i += 1;
        }
        out
    }

    /// The earliest instant after which some layer is due to let go of the
    /// event it holds: the least of the layers' deadlines, or `None` where
    /// no layer holds anything.
    pub fn next_deadline(&self) -> (d: Option<u64>)
        ensures
            match d {
                Some(x) => earliest_deadline_is(self.states(), x as int),
                None => none_held(self.states()),
            },
    {
        let mut best: Option<u64> = None;
        let mut i: usize = 0;
        while i < self.layers.len()
            invariant
                i <= self.layers.len(),
                best is None ==> forall|j: int|
                    0 <= j < i ==> (#[trigger] self.states()[j]).pending is None,
                best matches Some(x) ==> {
                    &&& exists|j: int| 0 <= j < i && holds_until(#[trigger] self.states()[j], x as int)
                    &&& forall|j: int|
                        0 <= j < i ==> not_due_before(#[trigger] self.states()[j], x as int)
                },
            decreases self.layers.len() - i,
        {
            match self.layers[i].deadline() {
                Some(d) => {
                    let lower = match best {
                        Some(b) => d < b,
                        None => true,
                    };
                    if lower {
                        assert(holds_until(self.states()[i as int], d as int));
                        best = Some(d);
                    }
                },
                None => {},
            }
            i += 1;
        }
        best
    }
}

} // verus!
