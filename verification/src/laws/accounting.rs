//! No event is lost: what a layer emits is what its entries account for.

use vstd::prelude::*;
use crate::key::{KeyInput, Stimulus};
use crate::model::{Fate, LayerSpec, LayerState};

verus! {

/// The number of presses among `s`.
pub open spec fn presses(s: Seq<KeyInput>) -> nat
    decreases s.len(),
{
    if s.len() == 0 {
        0
    } else {
        presses(s.drop_last()) + press_count(s.last())
    }
}

/// 1 for a press, 0 for a release.
pub open spec fn press_count(e: KeyInput) -> nat {
    if e.edge is Press {
        1
    } else {
        0
    }
}

/// 1 where the layer holds an event back, 0 where it does not.
pub open spec fn held(st: LayerState) -> nat {
    if st.pending is Some {
        1
    } else {
        0
    }
}

/// The number of events, as opposed to ticks, among `xs`.
pub open spec fn arrivals(xs: Seq<Stimulus>) -> nat
    decreases xs.len(),
{
    if xs.len() == 0 {
        0
    } else {
        arrivals(xs.drop_first()) + if xs[0] is Key {
            1nat
        } else {
            0nat
        }
    }
}

/// The account of what a layer did with its events.
pub struct Ledger {
    /// Events let through unchanged: those no entry applied to, and those
    /// held back and then let go.
    pub passed: nat,
    /// Events that a single entry rewrote.
    pub rewritten: nat,
    /// Events taken up by chords: two for each chord completed.
    pub chorded: nat,
    /// Events that the entries applied gave out in place of those they took.
    pub substituted: nat,
    /// The presses expected at the output: those among the events let
    /// through, and those among the outputs of the entries applied.
    pub presses: nat,
}

impl Ledger {
    /// Nothing happened.
    pub open spec fn zero() -> Ledger {
        Ledger { passed: 0, rewritten: 0, chorded: 0, substituted: 0, presses: 0 }
    }

    /// Both accounts together.
    pub open spec fn plus(self, other: Ledger) -> Ledger {
        Ledger {
            passed: self.passed + other.passed,
            rewritten: self.rewritten + other.rewritten,
            chorded: self.chorded + other.chorded,
            substituted: self.substituted + other.substituted,
            presses: self.presses + other.presses,
        }
    }
}

/// The account of a held event let go unchanged.
pub open spec fn let_go(e: KeyInput) -> Ledger {
    Ledger { passed: 1, rewritten: 0, chorded: 0, substituted: 0, presses: press_count(e) }
}

/// What the matching rules say one step does: which event goes where. It is
/// read off the entry that applies, not off what the layer emitted.
pub open spec fn account(spec: LayerSpec, st: LayerState, x: Stimulus) -> Ledger {
    match x {
        Stimulus::Key(ev) => {
            let e = ev.event;
            let now = ev.arrival_time;
            let head = match st.pending {
                Some(p) => if spec.completes(st, e, now) is Some {
                    Ledger::zero()
                } else {
                    let_go(p.event)
                },
                None => Ledger::zero(),
            };
            match spec.fate(st, e, now) {
                Fate::Chord(j) => Ledger {
                    passed: 0,
                    rewritten: 0,
                    chorded: 2,
                    substituted: spec.pairs[j].output.len(),
                    presses: presses(spec.pairs[j].output),
                },
                Fate::Single(i) => head.plus(
                    Ledger {
                        passed: 0,
                        rewritten: 1,
                        chorded: 0,
                        substituted: spec.singles[i].output.len(),
                        presses: presses(spec.singles[i].output),
                    },
                ),
                Fate::Hold(_) => head,
                Fate::Pass => head.plus(let_go(e)),
            }
        },
        Stimulus::Tick(now) => match st.pending {
            Some(p) => if p.expired(now) {
                let_go(p.event)
            } else {
                Ledger::zero()
            },
            None => Ledger::zero(),
        },
    }
}

/// The account of a whole run: the steps' accounts added up.
pub open spec fn ledger(spec: LayerSpec, st: LayerState, xs: Seq<Stimulus>) -> Ledger
    decreases xs.len(),
{
    if xs.len() == 0 {
        Ledger::zero()
    } else {
        account(spec, st, xs[0]).plus(ledger(spec, spec.react(st, xs[0]).next, xs.drop_first()))
    }
}

/// The presses among two sequences joined are those of the one and those of
/// the other.
pub proof fn lemma_presses_concat(a: Seq<KeyInput>, b: Seq<KeyInput>)
    ensures
        presses(a + b) == presses(a) + presses(b),
    decreases b.len(),
{
    if b.len() == 0 {
        assert(a + b == a);
    } else {
        assert((a + b).drop_last() == a + b.drop_last());
        lemma_presses_concat(a, b.drop_last());
    }
}

/// The presses among a single event.
pub proof fn lemma_presses_one(e: KeyInput)
    ensures
        presses(seq![e]) == press_count(e),
{
    assert(seq![e].drop_last() == Seq::<KeyInput>::empty());
    assert(presses(seq![e].drop_last()) == 0);
}

/// No event is lost in a step. Every event that arrives, and the one the
/// layer held, is let through unchanged, rewritten by a single entry, taken
/// up by a chord, or held afterwards, and by one of these only. The layer
/// emits as many events, and as many presses, as the entries applied say.
pub proof fn lemma_step_accounted(spec: LayerSpec, st: LayerState, x: Stimulus)
    ensures
        ({
            let r = spec.react(st, x);
            let l = account(spec, st, x);
            &&& arrivals(seq![x]) + held(st) == l.passed + l.rewritten + l.chorded + held(r.next)
            &&& r.emitted.len() == l.passed + l.substituted
            &&& presses(r.emitted) == l.presses
        }),
{
    assert(seq![x].drop_first() == Seq::<Stimulus>::empty());
    assert(arrivals(seq![x].drop_first()) == 0);
    let r = spec.react(st, x);
    match x {
        Stimulus::Key(ev) => {
            let e = ev.event;
            let now = ev.arrival_time;
            let head = spec.flushed(st, e, now);
            if head.len() > 0 {
                lemma_presses_one(head[0]);
                assert(head == seq![head[0]]);
            }
            match spec.fate(st, e, now) {
                Fate::Chord(j) => {},
                Fate::Single(i) => {
                    lemma_presses_concat(head, spec.singles[i].output);
                },
                Fate::Hold(_) => {},
                Fate::Pass => {
                    lemma_presses_one(e);
                    lemma_presses_concat(head, seq![e]);
                },
            }
        },
        Stimulus::Tick(now) => {
            if r.emitted.len() > 0 {
                lemma_presses_one(r.emitted[0]);
                assert(r.emitted == seq![r.emitted[0]]);
            }
        },
    }
}

/// No event is lost in a run, whatever the layer and whatever arrives. The
/// events that arrived, with the one held at the start, are those let
/// through unchanged, those rewritten, those taken up by chords and the one
/// held at the end. The events and the presses seen at the output are as
/// many as the entries applied say.
pub proof fn lemma_no_event_lost(spec: LayerSpec, st: LayerState, xs: Seq<Stimulus>)
    ensures
        ({
            let r = spec.run(st, xs);
            let l = ledger(spec, st, xs);
            &&& arrivals(xs) + held(st) == l.passed + l.rewritten + l.chorded + held(r.next)
            &&& r.emitted.len() == l.passed + l.substituted
            &&& presses(r.emitted) == l.presses
        }),
    decreases xs.len(),
{
    if xs.len() > 0 {
        let a = spec.react(st, xs[0]);
        lemma_step_accounted(spec, st, xs[0]);
        lemma_no_event_lost(spec, a.next, xs.drop_first());
        lemma_presses_concat(a.emitted, spec.run(a.next, xs.drop_first()).emitted);
        assert(seq![xs[0]].drop_first() == Seq::<Stimulus>::empty());
        assert(arrivals(seq![xs[0]].drop_first()) == 0);
    }
}

} // verus!
