//! The emergency stop.

use vstd::prelude::*;
use crate::engine::{DriverSpec, DriverState};
use crate::key::{KeyInput, Stimulus, TimedEvent};

verus! {

/// The emergency stop comes before everything else. On an event of the
/// emergency stop key, on either edge, the engine tells the caller to stop
/// and to send nothing, whatever the layers hold; what they hold stays
/// held, and is not sent.
pub proof fn lemma_emergency_stop(spec: DriverSpec, st: DriverState, ev: TimedEvent)
    requires
        spec.is_stop(ev.event),
    ensures
        spec.on_event(st, ev).stop,
        spec.on_event(st, ev).emitted == Seq::<KeyInput>::empty(),
        spec.on_event(st, ev).next.stopped,
        spec.on_event(st, ev).next.layers == st.layers,
{
}

/// Once the engine has stopped it sends nothing more, whatever arrives and
/// however much time passes, and it stays as it was.
pub proof fn lemma_stopped_is_silent(spec: DriverSpec, st: DriverState, xs: Seq<Stimulus>)
    requires
        st.stopped,
    ensures
        spec.run(st, xs).stop,
        spec.run(st, xs).emitted == Seq::<KeyInput>::empty(),
        spec.run(st, xs).next == st,
    decreases xs.len(),
{
    if xs.len() > 0 {
        let a = spec.react(st, xs[0]);
        assert(a.next == st);
        lemma_stopped_is_silent(spec, st, xs.drop_first());
        assert(a.emitted + spec.run(st, xs.drop_first()).emitted =~= Seq::<KeyInput>::empty());
    }
}

/// After an event of the emergency stop key nothing is sent: not for that
/// event, not for what the layers held, not for anything that follows.
pub proof fn lemma_nothing_after_emergency_stop(
    spec: DriverSpec,
    st: DriverState,
    ev: TimedEvent,
    xs: Seq<Stimulus>,
)
    requires
        spec.is_stop(ev.event),
    ensures
        spec.run(st, seq![Stimulus::Key(ev)] + xs).stop,
        spec.run(st, seq![Stimulus::Key(ev)] + xs).emitted == Seq::<KeyInput>::empty(),
        spec.run(st, seq![Stimulus::Key(ev)] + xs).next.layers == st.layers,
{
    let all = seq![Stimulus::Key(ev)] + xs;
    assert(all.drop_first() =~= xs);
    let a = spec.react(st, all[0]);
    lemma_stopped_is_silent(spec, a.next, xs);
    assert(a.emitted + spec.run(a.next, xs).emitted =~= Seq::<KeyInput>::empty());
}

} // verus!
