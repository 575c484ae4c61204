//! The mathematical model of one layer: what it holds between events and what
//! it decides on each of them.

use vstd::prelude::*;
use crate::key::{KeyInput, Stimulus};
use crate::rule::{PairRule, SingleRule, StateId};

verus! {

/// The first half of a chord, held back until the chord completes, another
/// event interrupts it, or its time runs out.
#[derive(Clone, Copy, Debug, PartialEq, Eq)]
pub struct Pending {
    /// The event held back.
    pub event: KeyInput,
    /// When it arrived, in milliseconds.
    pub since: u64,
    /// How long it may be held, in milliseconds.
    pub threshold: u32,
}

/// What a layer carries from one event to the next.
#[derive(Clone, Copy, Debug, PartialEq, Eq)]
pub struct LayerState {
    pub state: StateId,
    pub pending: Option<Pending>,
}

/// A layer as declared: its name, the state it starts in, and its entries in
/// declared order.
pub struct LayerSpec {
    pub name: Seq<char>,
    pub initial_state: StateId,
    pub singles: Seq<SingleRule>,
    pub pairs: Seq<PairRule>,
}

/// What a layer does with one event.
pub enum Fate {
    /// It completes the chord of the pair entry with this index.
    Chord(int),
    /// The single entry with this index rewrites it.
    Single(int),
    /// It is held back as the first half of a chord; the pair entry with this
    /// index sets the time limit.
    Hold(int),
    /// No entry applies: it passes through unchanged.
    Pass,
}

/// The result of one step of a layer.
pub struct Outcome {
    pub next: LayerState,
    pub emitted: Seq<KeyInput>,
}

/// The least index from `i` on at which `hits` holds.
pub open spec fn first_hit_from(hits: Seq<bool>, i: int) -> Option<int>
    decreases hits.len() - i,
{
    if i < 0 || i >= hits.len() {
        None
    } else if hits[i] {
        Some(i)
    } else {
        first_hit_from(hits, i + 1)
    }
}

/// The least index at which `hits` holds.
pub open spec fn first_hit(hits: Seq<bool>) -> Option<int> {
    first_hit_from(hits, 0)
}

/// `k` is the least index at which `hits` holds.
pub open spec fn is_first_hit(hits: Seq<bool>, k: int) -> bool {
    &&& 0 <= k < hits.len()
    &&& hits[k]
    &&& forall|j: int| 0 <= j < k ==> !hits[j]
}

/// `hits` holds nowhere.
pub open spec fn no_hit(hits: Seq<bool>) -> bool {
    forall|j: int| 0 <= j < hits.len() ==> !hits[j]
}

/// `first_hit_from` finds the least index from `i` on, or none where there is
/// none.
pub proof fn lemma_first_hit_from(hits: Seq<bool>, i: int)
    requires
        0 <= i <= hits.len(),
    ensures
        match first_hit_from(hits, i) {
            Some(k) => i <= k < hits.len() && hits[k] && forall|j: int| i <= j < k ==> !hits[j],
            None => forall|j: int| i <= j < hits.len() ==> !hits[j],
        },
    decreases hits.len() - i,
{
    if i < hits.len() && !hits[i] {
        lemma_first_hit_from(hits, i + 1);
    }
}

/// `first_hit` is `Some(k)` exactly for the least index `k` at which `hits`
/// holds, and `None` exactly where it holds nowhere.
pub proof fn lemma_first_hit(hits: Seq<bool>)
    ensures
        forall|k: int| first_hit(hits) == Some(k) <==> is_first_hit(hits, k),
        first_hit(hits) is None <==> no_hit(hits),
{
    lemma_first_hit_from(hits, 0);
    assert forall|k: int| is_first_hit(hits, k) implies first_hit(hits) == Some(k) by {
        match first_hit(hits) {
            Some(m) => {
                if m < k {
                    assert(!hits[m]);
                } else if k < m {
                    assert(!hits[k]);
                }
            },
            None => {
                assert(!hits[k]);
            },
        }
    }
}

impl Pending {
    /// The time the event has been held at `now`. A clock that ran backwards
    /// counts as no time passed.
    pub open spec fn elapsed(self, now: u64) -> int {
        if now >= self.since {
            now - self.since
        } else {
            0
        }
    }

    /// The event has been held for longer than its limit.
    pub open spec fn expired(self, now: u64) -> bool {
        self.elapsed(now) > self.threshold
    }

    /// The time the event has been held at `now`.
    pub fn elapsed_at(&self, now: u64) -> (d: u64)
        ensures
            d == self.elapsed(now),
    {
        if now >= self.since {
            now - self.since
        } else {
            0
        }
    }

    /// Whether the event has been held for longer than its limit.
    pub fn is_expired(&self, now: u64) -> (r: bool)
        ensures
            r == self.expired(now),
    {
        self.elapsed_at(now) > self.threshold as u64
    }

    /// The last instant at which the event may still be held: its arrival
    /// plus its limit, or the end of time where that sum cannot be
    /// represented.
    pub open spec fn deadline(self) -> int {
        if self.since + self.threshold <= u64::MAX {
            self.since + self.threshold
        } else {
            u64::MAX as int
        }
    }

    /// The last instant at which the event may still be held.
    pub fn deadline_at(&self) -> (d: u64)
        ensures
            d == self.deadline(),
            forall|now: u64| self.expired(now) <==> now > d,
    {
        self.since.saturating_add(self.threshold as u64)
    }
}

impl LayerSpec {
    /// Single entries `a` and `b` apply to the same event in the same state.
    pub open spec fn clash(self, a: int, b: int) -> bool {
        self.singles[a].condition == self.singles[b].condition && self.singles[a].input
            == self.singles[b].input
    }

    /// Pair entry `j` has a threshold above zero, and its two events differ.
    pub open spec fn sound_pair(self, j: int) -> bool {
        self.pairs[j].threshold > 0 && self.pairs[j].first != self.pairs[j].second
    }

    /// The layer is declared without defect: no two single entries apply to
    /// the same event in the same state, every pair entry has a threshold
    /// above zero, and the two events of every pair entry differ. A layer
    /// that falls short of this still runs: the first entry that applies
    /// decides.
    pub open spec fn well_formed(self) -> bool {
        &&& forall|a: int, b: int| 0 <= a < b < self.singles.len() ==> !#[trigger] self.clash(a, b)
        &&& forall|j: int| 0 <= j < self.pairs.len() ==> #[trigger] self.sound_pair(j)
    }

    /// The state a layer starts in: its initial state, nothing held back.
    pub open spec fn idle(self) -> LayerState {
        LayerState { state: self.initial_state, pending: None }
    }

    /// For each single entry, whether it applies to `e` in state `s`.
    pub open spec fn single_hits(self, s: StateId, e: KeyInput) -> Seq<bool> {
        Seq::new(self.singles.len(), |i: int| self.singles[i].matches(s, e))
    }

    /// For each pair entry, whether `e` in state `s` is its first half.
    pub open spec fn opener_hits(self, s: StateId, e: KeyInput) -> Seq<bool> {
        Seq::new(self.pairs.len(), |i: int| self.pairs[i].opens(s, e))
    }

    /// For each pair entry, whether `a` then `b` in state `s` is its chord.
    pub open spec fn pair_hits(self, s: StateId, a: KeyInput, b: KeyInput) -> Seq<bool> {
        Seq::new(self.pairs.len(), |i: int| self.pairs[i].matches(s, a, b))
    }

    /// The first single entry, in declared order, that applies to `e` in
    /// state `s`.
    pub open spec fn first_single(self, s: StateId, e: KeyInput) -> Option<int> {
        first_hit(self.single_hits(s, e))
    }

    /// The first pair entry, in declared order, of which `e` in state `s` is
    /// the first half.
    pub open spec fn first_opener(self, s: StateId, e: KeyInput) -> Option<int> {
        first_hit(self.opener_hits(s, e))
    }

    /// The first pair entry, in declared order, whose chord in state `s` is
    /// `a` then `b`.
    pub open spec fn first_pair(self, s: StateId, a: KeyInput, b: KeyInput) -> Option<int> {
        first_hit(self.pair_hits(s, a, b))
    }

    /// The pair entry that `e`, arriving at `now`, completes: the first one
    /// whose chord is the held event followed by `e`, provided the held event
    /// has outlived neither its own limit nor that entry's threshold.
    pub open spec fn completes(self, st: LayerState, e: KeyInput, now: u64) -> Option<int> {
        match st.pending {
            Some(p) => match self.first_pair(st.state, p.event, e) {
                Some(j) => if !p.expired(now) && p.elapsed(now) <= self.pairs[j].threshold {
                    Some(j)
                } else {
                    None
                },
                None => None,
            },
            None => None,
        }
    }

    /// What the layer does with `e` arriving at `now`: complete a chord,
    /// else rewrite by the first single entry that applies, else hold `e`
    /// back as the first half of a chord, else pass it through.
    pub open spec fn fate(self, st: LayerState, e: KeyInput, now: u64) -> Fate {
        match self.completes(st, e, now) {
            Some(j) => Fate::Chord(j),
            None => match self.first_single(st.state, e) {
                Some(i) => Fate::Single(i),
                None => match self.first_opener(st.state, e) {
                    Some(j) => Fate::Hold(j),
                    None => Fate::Pass,
                },
            },
        }
    }

    /// The held event, where `e` arriving at `now` does not complete its
    /// chord: it is then let go unchanged, ahead of whatever `e` gives.
    pub open spec fn flushed(self, st: LayerState, e: KeyInput, now: u64) -> Seq<KeyInput> {
        match st.pending {
            Some(p) => if self.completes(st, e, now) is Some {
                Seq::empty()
            } else {
                seq![p.event]
            },
            None => Seq::empty(),
        }
    }

    /// One step: the layer in state `st` receives `e` at `now`.
    pub open spec fn step(self, st: LayerState, e: KeyInput, now: u64) -> Outcome {
        let head = self.flushed(st, e, now);
        match self.fate(st, e, now) {
            Fate::Chord(j) => Outcome {
                next: LayerState { state: self.pairs[j].transition, pending: None },
                emitted: self.pairs[j].output,
            },
            Fate::Single(i) => Outcome {
                next: LayerState { state: self.singles[i].transition, pending: None },
                emitted: head + self.singles[i].output,
            },
            Fate::Hold(j) => Outcome {
                next: LayerState {
                    state: st.state,
                    pending: Some(
                        Pending { event: e, since: now, threshold: self.pairs[j].threshold },
                    ),
                },
                emitted: head,
            },
            Fate::Pass => Outcome {
                next: LayerState { state: st.state, pending: None },
                emitted: head + seq![e],
            },
        }
    }

    /// The layer's steps on `events`, all arriving at `now`, one after the
    /// other: the state it ends in and all it emitted, in order.
    pub open spec fn step_all(self, st: LayerState, events: Seq<KeyInput>, now: u64) -> Outcome
        decreases events.len(),
    {
        if events.len() == 0 {
            Outcome { next: st, emitted: Seq::empty() }
        } else {
            let a = self.step(st, events[0], now);
            let b = self.step_all(a.next, events.drop_first(), now);
            Outcome { next: b.next, emitted: a.emitted + b.emitted }
        }
    }

    /// One step of the layer, on whichever of the two happened.
    pub open spec fn react(self, st: LayerState, x: Stimulus) -> Outcome {
        match x {
            Stimulus::Key(ev) => self.step(st, ev.event, ev.arrival_time),
            Stimulus::Tick(now) => self.timeout(st, now),
        }
    }

    /// The layer's steps on `xs`, one after the other: the state it ends in
    /// and all it emitted, in order.
    pub open spec fn run(self, st: LayerState, xs: Seq<Stimulus>) -> Outcome
        decreases xs.len(),
    {
        if xs.len() == 0 {
            Outcome { next: st, emitted: Seq::empty() }
        } else {
            let a = self.react(st, xs[0]);
            let b = self.run(a.next, xs.drop_first());
            Outcome { next: b.next, emitted: a.emitted + b.emitted }
        }
    }

    /// The passing of time alone: at `now`, a held event that has outlived
    /// its limit is let go unchanged. Nothing else changes.
    pub open spec fn timeout(self, st: LayerState, now: u64) -> Outcome {
        match st.pending {
            Some(p) => if p.expired(now) {
                Outcome {
                    next: LayerState { state: st.state, pending: None },
                    emitted: seq![p.event],
                }
            } else {
                Outcome { next: st, emitted: Seq::empty() }
            },
            None => Outcome { next: st, emitted: Seq::empty() },
        }
    }
}

} // verus!
