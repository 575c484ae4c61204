//! The pipeline composes its layers.

use vstd::prelude::*;
use crate::key::KeyInput;
use crate::model::{LayerSpec, LayerState};
use crate::pipeline::{cascade_from, feed_all_from, feed_from, lemma_feed_keeps_len};

verus! {

/// The layers below layer `k` neither read nor change what layer `k`
/// carries: with another state `x` in its place, they emit the same and end
/// in the same states, but for `x` in that place.
pub proof fn lemma_lower_layers_independent(
    specs: Seq<LayerSpec>,
    states: Seq<LayerState>,
    k: int,
    x: LayerState,
    j: int,
    events: Seq<KeyInput>,
    now: u64,
)
    requires
        states.len() == specs.len(),
        0 <= k < j,
        k < specs.len(),
    ensures
        feed_all_from(specs, states.update(k, x), j, events, now).emitted == feed_all_from(
            specs,
            states,
            j,
            events,
            now,
        ).emitted,
        feed_all_from(specs, states.update(k, x), j, events, now).states == feed_all_from(
            specs,
            states,
            j,
            events,
            now,
        ).states.update(k, x),
        events.len() > 0 ==> feed_from(specs, states.update(k, x), j, events[0], now).emitted
            == feed_from(specs, states, j, events[0], now).emitted,
        events.len() > 0 ==> feed_from(specs, states.update(k, x), j, events[0], now).states
            == feed_from(specs, states, j, events[0], now).states.update(k, x),
    decreases specs.len() - j, events.len() + 1,
{
    let moved = states.update(k, x);
    if j < specs.len() && events.len() > 0 {
        let e = events[0];
        let r = specs[j].step(states[j], e, now);
        let below = states.update(j, r.next);
        assert(moved[j] == states[j]);
        assert(moved.update(j, r.next) =~= below.update(k, x));
        lemma_lower_layers_independent(specs, below, k, x, j + 1, r.emitted, now);
        let a = feed_from(specs, states, j, e, now);
        let a_moved = feed_from(specs, moved, j, e, now);
        assert(a == feed_all_from(specs, below, j + 1, r.emitted, now));
        assert(a_moved == feed_all_from(specs, below.update(k, x), j + 1, r.emitted, now));
        assert(a_moved.emitted == a.emitted);
        assert(a_moved.states == a.states.update(k, x));
        lemma_feed_keeps_len(specs, states, j, events, now);
        lemma_lower_layers_independent(specs, a.states, k, x, j, events.drop_first(), now);
        let b = feed_all_from(specs, a.states, j, events.drop_first(), now);
        let b_moved = feed_all_from(specs, a_moved.states, j, events.drop_first(), now);
        assert(b_moved.emitted == b.emitted);
        assert(b_moved.states == b.states.update(k, x));
    } else if j < specs.len() {
        assert(feed_all_from(specs, moved, j, events, now).states == moved);
    } else {
        assert(feed_all_from(specs, moved, j, events, now).states == moved);
        assert(events.len() > 0 ==> feed_from(specs, moved, j, events[0], now).states == moved);
    }
}

/// What the layers below layer `k` do leaves layer `k` as it was.
pub proof fn lemma_lower_layers_leave_upper(
    specs: Seq<LayerSpec>,
    states: Seq<LayerState>,
    k: int,
    j: int,
    events: Seq<KeyInput>,
    now: u64,
)
    requires
        states.len() == specs.len(),
        0 <= k < j,
        k < specs.len(),
    ensures
        feed_all_from(specs, states, j, events, now).states[k] == states[k],
{
    lemma_lower_layers_independent(specs, states, k, states[k], j, events, now);
    lemma_feed_keeps_len(specs, states, j, events, now);
    assert(states.update(k, states[k]) =~= states);
}

/// Events entering a layer in two batches, one right after the other, fare
/// as they do entering in one.
pub proof fn lemma_feed_all_concat(
    specs: Seq<LayerSpec>,
    states: Seq<LayerState>,
    j: int,
    a: Seq<KeyInput>,
    b: Seq<KeyInput>,
    now: u64,
)
    requires
        states.len() == specs.len(),
    ensures
        ({
            let whole = feed_all_from(specs, states, j, a + b, now);
            let first = feed_all_from(specs, states, j, a, now);
            let second = feed_all_from(specs, first.states, j, b, now);
            &&& whole.states == second.states
            &&& whole.emitted == first.emitted + second.emitted
        }),
    decreases a.len(),
{
    if 0 <= j < specs.len() {
        if a.len() == 0 {
            assert(a + b =~= b);
        } else {
            assert((a + b).drop_first() =~= a.drop_first() + b);
            let head = feed_from(specs, states, j, a[0], now);
            lemma_feed_keeps_len(specs, states, j, a, now);
            lemma_feed_all_concat(specs, head.states, j, a.drop_first(), b, now);
            let first_rest = feed_all_from(specs, head.states, j, a.drop_first(), now);
            let second = feed_all_from(specs, first_rest.states, j, b, now);
            assert(head.emitted + (first_rest.emitted + second.emitted) =~= (head.emitted
                + first_rest.emitted) + second.emitted);
        }
    }
}

/// The pipeline composes its layers. Running each event to the bottom of
/// the stack before the next one enters gives the same as working layer by
/// layer: all that layer `i` emits for the events, in order, is what layer
/// `i + 1` receives, and what the last layer emits is what comes out.
pub proof fn lemma_pipeline_composes(
    specs: Seq<LayerSpec>,
    states: Seq<LayerState>,
    i: int,
    events: Seq<KeyInput>,
    now: u64,
)
    requires
        states.len() == specs.len(),
        0 <= i,
    ensures
        feed_all_from(specs, states, i, events, now).emitted == cascade_from(
            specs,
            states,
            i,
            events,
            now,
        ).emitted,
        feed_all_from(specs, states, i, events, now).states == cascade_from(
            specs,
            states,
            i,
            events,
            now,
        ).states,
    decreases specs.len() - i, events.len(),
{
    if i < specs.len() {
        let all = specs[i].step_all(states[i], events, now);
        let start = states.update(i, all.next);
        assert(cascade_from(specs, states, i, events, now) == cascade_from(
            specs,
            start,
            i + 1,
            all.emitted,
            now,
        ));
        lemma_pipeline_composes(specs, start, i + 1, all.emitted, now);
        let below = feed_all_from(specs, start, i + 1, all.emitted, now);
        if events.len() == 0 {
            assert(start =~= states);
            assert(below.states == states);
            assert(below.emitted =~= Seq::<KeyInput>::empty());
        } else {
            let e = events[0];
            let rest = events.drop_first();
            let r = specs[i].step(states[i], e, now);
            let lower = states.update(i, r.next);
            // The first event runs to the bottom.
            let a = feed_from(specs, states, i, e, now);
            assert(a == feed_all_from(specs, lower, i + 1, r.emitted, now));
            lemma_feed_keeps_len(specs, states, i, events, now);
            lemma_lower_layers_leave_upper(specs, lower, i, i + 1, r.emitted, now);
            assert(a.states[i] == r.next);
            // The others follow; by induction they fare as layer by layer.
            let b = feed_all_from(specs, a.states, i, rest, now);
            lemma_pipeline_composes(specs, a.states, i, rest, now);
            let tail = specs[i].step_all(r.next, rest, now);
            assert(all.next == tail.next);
            assert(all.emitted == r.emitted + tail.emitted);
            let resumed = a.states.update(i, tail.next);
            assert(cascade_from(specs, a.states, i, rest, now) == cascade_from(
                specs,
                resumed,
                i + 1,
                tail.emitted,
                now,
            ));
            lemma_pipeline_composes(specs, resumed, i + 1, tail.emitted, now);
            let second = feed_all_from(specs, resumed, i + 1, tail.emitted, now);
            assert(b.emitted == second.emitted);
            assert(b.states == second.states);
            // Layer by layer, the layers below take both batches in one.
            lemma_feed_all_concat(specs, start, i + 1, r.emitted, tail.emitted, now);
            assert(start =~= lower.update(i, tail.next));
            lemma_lower_layers_independent(specs, lower, i, tail.next, i + 1, r.emitted, now);
            let first = feed_all_from(specs, start, i + 1, r.emitted, now);
            assert(first.emitted == a.emitted);
            assert(first.states == resumed);
            assert(below.emitted == first.emitted + second.emitted);
            assert(below.states == second.states);
        }
    }
}

/// The same for one event entering the first layer.
pub proof fn lemma_feed_is_cascade(
    specs: Seq<LayerSpec>,
    states: Seq<LayerState>,
    e: KeyInput,
    now: u64,
)
    requires
        states.len() == specs.len(),
    ensures
        feed_from(specs, states, 0, e, now).emitted == cascade_from(
            specs,
            states,
            0,
            seq![e],
            now,
        ).emitted,
        feed_from(specs, states, 0, e, now).states == cascade_from(
            specs,
            states,
            0,
            seq![e],
            now,
        ).states,
{
    lemma_pipeline_composes(specs, states, 0, seq![e], now);
    lemma_feed_keeps_len(specs, states, 0, seq![e], now);
    let a = feed_from(specs, states, 0, e, now);
    if specs.len() > 0 {
        assert(seq![e].drop_first() =~= Seq::<KeyInput>::empty());
        let b = feed_all_from(specs, a.states, 0, Seq::<KeyInput>::empty(), now);
        assert(a.emitted + b.emitted =~= a.emitted);
    }
}

} // verus!
