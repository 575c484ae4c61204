//! Which entry decides, and how a chord ends: completed, timed out or
//! interrupted.

use vstd::prelude::*;
use crate::key::KeyInput;
use crate::model::{LayerSpec, LayerState, Pending, is_first_hit, lemma_first_hit};
use crate::rule::StateId;

verus! {

/// In a layer declared without defect every single entry can be reached:
/// entry `i` is the one that applies to its own event in its own state.
pub proof fn lemma_every_single_entry_reachable(spec: LayerSpec, i: int)
    requires
        spec.well_formed(),
        0 <= i < spec.singles.len(),
    ensures
        spec.first_single(spec.singles[i].condition, spec.singles[i].input) == Some(i),
{
    let hits = spec.single_hits(spec.singles[i].condition, spec.singles[i].input);
    lemma_first_hit(hits);
    assert forall|j: int| 0 <= j < i implies !hits[j] by {
        assert(!spec.clash(j, i));
    }
    assert(is_first_hit(hits, i));
}

/// A single entry comes before a chord is opened: an event to which a
/// single entry applies is never held back, whatever chords it could open.
pub proof fn lemma_single_before_chord(spec: LayerSpec, st: LayerState, e: KeyInput, now: u64)
    requires
        spec.first_single(st.state, e) is Some,
    ensures
        !(spec.fate(st, e, now) is Hold),
        !(spec.fate(st, e, now) is Pass),
        spec.step(st, e, now).next.pending is None,
{
}

/// A chord completed in time gives the entry's output and nothing else. In
/// state `s`, with nothing held, `a` arrives and then `b`; no single entry
/// applies to `a`, entry `j` is the first whose chord is `a` then `b`, and
/// `b` arrives within the time limit that `a` was held with and within
/// entry `j`'s threshold. Then `a` gives nothing, `b` gives entry `j`'s
/// output, and the layer is left in entry `j`'s next state, holding nothing.
pub proof fn lemma_chord_completion(
    spec: LayerSpec,
    s: StateId,
    a: KeyInput,
    b: KeyInput,
    t1: u64,
    t2: u64,
    k: int,
    j: int,
)
    requires
        spec.first_single(s, a) is None,
        spec.first_opener(s, a) == Some(k),
        spec.first_pair(s, a, b) == Some(j),
        t1 <= t2,
        t2 - t1 <= spec.pairs[k].threshold,
        t2 - t1 <= spec.pairs[j].threshold,
    ensures
        ({
            let r1 = spec.step(LayerState { state: s, pending: None }, a, t1);
            let r2 = spec.step(r1.next, b, t2);
            &&& r1.emitted == Seq::<KeyInput>::empty()
            &&& r2.emitted == spec.pairs[j].output
            &&& r2.next == LayerState { state: spec.pairs[j].transition, pending: None }
        }),
{
}

/// A chord that no second event completes ends in the first event alone.
/// In state `s`, with nothing held, `a` arrives; no single entry applies to
/// it and entry `k` is the first of which it is the first half. Then `a`
/// gives nothing at first. While no more than entry `k`'s threshold has
/// passed, the passing of time gives nothing either; once more has passed,
/// it gives `a` unchanged, with no new event, and the layer is left in
/// state `s`, holding nothing.
pub proof fn lemma_chord_timeout(
    spec: LayerSpec,
    s: StateId,
    a: KeyInput,
    t1: u64,
    now: u64,
    k: int,
)
    requires
        spec.first_single(s, a) is None,
        spec.first_opener(s, a) == Some(k),
        t1 <= now,
    ensures
        ({
            let r1 = spec.step(LayerState { state: s, pending: None }, a, t1);
            let r2 = spec.timeout(r1.next, now);
            &&& r1.emitted == Seq::<KeyInput>::empty()
            &&& now - t1 > spec.pairs[k].threshold ==> r2.emitted == seq![a] && r2.next
                == LayerState { state: s, pending: None }
            &&& now - t1 <= spec.pairs[k].threshold ==> r2.emitted == Seq::<KeyInput>::empty()
                && r2.next == r1.next
        }),
{
}

/// An event that does not complete the chord lets the held event go first.
/// Where the layer holds an event and `c` does not complete its chord, the
/// layer emits the held event unchanged and then whatever it emits for `c`
/// with nothing held, and it ends where that step ends: `c` may be
/// rewritten, pass through, or be held back in its turn.
pub proof fn lemma_chord_interruption(spec: LayerSpec, st: LayerState, c: KeyInput, now: u64)
    requires
        st.pending is Some,
        spec.completes(st, c, now) is None,
    ensures
        ({
            let fresh = spec.step(LayerState { state: st.state, pending: None }, c, now);
            let r = spec.step(st, c, now);
            &&& r.emitted == seq![st.pending->0.event] + fresh.emitted
            &&& r.next == fresh.next
        }),
{
    let fresh = spec.step(LayerState { state: st.state, pending: None }, c, now);
    let r = spec.step(st, c, now);
    assert(r.emitted =~= seq![st.pending->0.event] + fresh.emitted);
}

/// The same, from the start: in state `s`, with nothing held, `a` arrives
/// and is held back, and `c` follows within the time limit; no pair entry
/// has `a` then `c` for its chord. Then `a` gives nothing, and `c` gives
/// `a` unchanged followed by whatever `c` gives in state `s` with nothing
/// held.
pub proof fn lemma_chord_interrupted_in_time(
    spec: LayerSpec,
    s: StateId,
    a: KeyInput,
    c: KeyInput,
    t1: u64,
    t2: u64,
    k: int,
)
    requires
        spec.first_single(s, a) is None,
        spec.first_opener(s, a) == Some(k),
        spec.first_pair(s, a, c) is None,
        t1 <= t2,
        t2 - t1 <= spec.pairs[k].threshold,
    ensures
        ({
            let idle = LayerState { state: s, pending: None };
            let r1 = spec.step(idle, a, t1);
            let r2 = spec.step(r1.next, c, t2);
            &&& r1.emitted == Seq::<KeyInput>::empty()
            &&& r2.emitted == seq![a] + spec.step(idle, c, t2).emitted
            &&& r2.next == spec.step(idle, c, t2).next
        }),
{
    let idle = LayerState { state: s, pending: None };
    let r1 = spec.step(idle, a, t1);
    lemma_chord_interruption(spec, r1.next, c, t2);
}

/// A held event is overdue exactly after its deadline: up to and at the
/// deadline a second event may still complete the chord, past it the event
/// is due to be let go.
pub proof fn lemma_overdue_after_deadline(p: Pending, now: u64)
    ensures
        p.expired(now) <==> now > p.deadline(),
{
}

/// A held event that is overdue is let go by the passing of time: the layer
/// emits it unchanged, stays in its state and holds nothing afterwards.
pub proof fn lemma_overdue_is_let_go(spec: LayerSpec, st: LayerState, now: u64)
    requires
        st.pending matches Some(p) && p.expired(now),
    ensures
        spec.timeout(st, now).emitted == seq![st.pending->0.event],
        spec.timeout(st, now).next == (LayerState { state: st.state, pending: None }),
{
}

} // verus!
