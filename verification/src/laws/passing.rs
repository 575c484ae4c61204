//! Events that no entry applies to, and time that lets nothing go.

use vstd::prelude::*;
use crate::engine::{DriverSpec, DriverState, dispatch};
use crate::key::{KeyInput, TimedEvent};
use crate::model::{LayerSpec, LayerState};
use crate::pipeline::{
    advance_from, earliest_deadline_is, feed_all_from, feed_from, none_held, not_due_before,
};
use crate::rule::StateId;

verus! {

/// No entry of the layer applies to `e` in state `s`: no single entry
/// rewrites it and it is the first half of no chord.
pub open spec fn ignores(spec: LayerSpec, s: StateId, e: KeyInput) -> bool {
    spec.first_single(s, e) is None && spec.first_opener(s, e) is None
}

/// Every layer of the stack holds nothing, and no entry of it applies to
/// `e` in the state it is in.
pub open spec fn all_ignore(specs: Seq<LayerSpec>, states: Seq<LayerState>, e: KeyInput) -> bool {
    forall|i: int|
        0 <= i < specs.len() ==> (#[trigger] states[i]).pending is None && ignores(
            specs[i],
            states[i].state,
            e,
        )
}

/// An event that no entry applies to passes through a layer unchanged and
/// leaves it as it was.
pub proof fn lemma_layer_pass_through(spec: LayerSpec, s: StateId, e: KeyInput, now: u64)
    requires
        ignores(spec, s, e),
    ensures
        spec.step(LayerState { state: s, pending: None }, e, now).emitted == seq![e],
        spec.step(LayerState { state: s, pending: None }, e, now).next == (LayerState {
            state: s,
            pending: None,
        }),
{
    let r = spec.step(LayerState { state: s, pending: None }, e, now);
    assert(r.emitted =~= seq![e]);
}

/// An event that no entry of any layer applies to leaves the pipeline as it
/// entered, and alone; no layer changes.
pub proof fn lemma_pass_through_from(
    specs: Seq<LayerSpec>,
    states: Seq<LayerState>,
    i: int,
    e: KeyInput,
    now: u64,
)
    requires
        states.len() == specs.len(),
        0 <= i,
        all_ignore(specs, states, e),
    ensures
        feed_from(specs, states, i, e, now).emitted == seq![e],
        feed_from(specs, states, i, e, now).states == states,
    decreases specs.len() - i,
{
    if i < specs.len() {
        let st = states[i];
        lemma_layer_pass_through(specs[i], st.state, e, now);
        let r = specs[i].step(st, e, now);
        assert(states.update(i, r.next) =~= states);
        lemma_pass_through_from(specs, states, i + 1, e, now);
        let first = feed_from(specs, states, i + 1, e, now);
        assert(seq![e].drop_first() =~= Seq::<KeyInput>::empty());
        let rest = feed_all_from(specs, first.states, i + 1, Seq::<KeyInput>::empty(), now);
        assert(rest.emitted =~= Seq::<KeyInput>::empty());
        assert(first.emitted + rest.emitted =~= seq![e]);
    }
}

/// The same for the whole pipeline.
pub proof fn lemma_pass_through(
    specs: Seq<LayerSpec>,
    states: Seq<LayerState>,
    e: KeyInput,
    now: u64,
)
    requires
        states.len() == specs.len(),
        all_ignore(specs, states, e),
    ensures
        feed_from(specs, states, 0, e, now).emitted == seq![e],
        feed_from(specs, states, 0, e, now).states == states,
{
    lemma_pass_through_from(specs, states, 0, e, now);
}

/// No layer holds an event that is overdue at `now`.
pub open spec fn nothing_due(states: Seq<LayerState>, now: u64) -> bool {
    forall|k: int|
        0 <= k < states.len() ==> ((#[trigger] states[k]).pending matches Some(p) ==> !p.expired(
            now,
        ))
}

/// Up to the earliest deadline nothing is overdue, and where no layer holds
/// an event nothing ever is.
pub proof fn lemma_nothing_due_until_deadline(states: Seq<LayerState>, x: int, now: u64)
    requires
        none_held(states) || (earliest_deadline_is(states, x) && now <= x),
    ensures
        nothing_due(states, now),
{
    assert forall|k: int| 0 <= k < states.len() implies ((#[trigger] states[k]).pending matches Some(
        p,
    ) ==> !p.expired(now)) by {
        if !none_held(states) {
            assert(not_due_before(states[k], x));
        }
    }
}

/// Until an event is overdue, the passing of time changes nothing and gives
/// nothing: the caller may sleep until the earliest deadline is past.
pub proof fn lemma_nothing_due_nothing_sent(
    specs: Seq<LayerSpec>,
    states: Seq<LayerState>,
    i: int,
    now: u64,
)
    requires
        states.len() == specs.len(),
        0 <= i,
        nothing_due(states, now),
    ensures
        advance_from(specs, states, i, now).emitted == Seq::<KeyInput>::empty(),
        advance_from(specs, states, i, now).states == states,
    decreases specs.len() - i,
{
    if i < specs.len() {
        let r = specs[i].timeout(states[i], now);
        assert(r.next == states[i]);
        assert(states.update(i, r.next) =~= states);
        let a = feed_all_from(specs, states, i + 1, Seq::<KeyInput>::empty(), now);
        assert(a.emitted =~= Seq::<KeyInput>::empty());
        lemma_nothing_due_nothing_sent(specs, states, i + 1, now);
        assert(a.emitted + advance_from(specs, states, i + 1, now).emitted =~= Seq::<
            KeyInput,
        >::empty());
    }
}

/// An event that no entry of any layer applies to, and that is not of the
/// emergency stop key, makes a running engine send that event alone, and
/// leaves the engine as it was.
pub proof fn lemma_engine_pass_through(spec: DriverSpec, st: DriverState, ev: TimedEvent)
    requires
        st.layers.len() == spec.layers.len(),
        !st.stopped,
        !spec.is_stop(ev.event),
        all_ignore(spec.layers, st.layers, ev.event),
    ensures
        !spec.on_event(st, ev).stop,
        spec.on_event(st, ev).emitted == seq![ev.event],
        spec.on_event(st, ev).next == st,
{
    lemma_nothing_due_nothing_sent(spec.layers, st.layers, 0, ev.arrival_time);
    lemma_pass_through(spec.layers, st.layers, ev.event, ev.arrival_time);
    let r = dispatch(spec.layers, st.layers, ev.event, ev.arrival_time);
    assert(r.emitted =~= seq![ev.event]);
}

} // verus!
