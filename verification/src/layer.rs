//! A remap layer: its declaration, and the running layer that steps through
//! events one at a time.

use vstd::prelude::*;
use crate::key::KeyInput;
use crate::model::{LayerSpec, LayerState, Pending, is_first_hit, lemma_first_hit, no_hit};
use crate::rule::{PairRemapEntry, PairRule, SingleRemapEntry, SingleRule, StateId};

verus! {

/// A layer as declared: built once, never changed afterwards.
#[derive(Clone, Debug, PartialEq, Eq)]
pub struct RemapLayer {
    pub pair_remap_entries: Vec<PairRemapEntry>,
    pub single_remap_entries: Vec<SingleRemapEntry>,
    /// For diagnostics only.
    pub layer_name: &'static str,
    pub initial_state: StateId,
}

/// What the single entries say, in declared order.
pub open spec fn single_rules(entries: Seq<SingleRemapEntry>) -> Seq<SingleRule> {
    Seq::new(entries.len(), |i: int| entries[i]@)
}

/// What the pair entries say, in declared order.
pub open spec fn pair_rules(entries: Seq<PairRemapEntry>) -> Seq<PairRule> {
    Seq::new(entries.len(), |i: int| entries[i]@)
}

impl View for RemapLayer {
    type V = LayerSpec;

    open spec fn view(&self) -> LayerSpec {
        LayerSpec {
            name: self.layer_name@,
            initial_state: self.initial_state,
            singles: single_rules(self.single_remap_entries@),
            pairs: pair_rules(self.pair_remap_entries@),
        }
    }
}

impl Default for RemapLayer {
    /// A stateless layer without entries and without a name: every event
    /// passes through it.
    fn default() -> (layer: RemapLayer)
        ensures
            layer.pair_remap_entries@.len() == 0,
            layer.single_remap_entries@.len() == 0,
            layer.layer_name@ == ""@,
            layer.initial_state == 0,
    {
        RemapLayer {
            pair_remap_entries: Vec::new(),
            single_remap_entries: Vec::new(),
            layer_name: "",
            initial_state: 0,
        }
    }
}

/// Appends `items` to `out`, in order.
pub fn append(out: &mut Vec<KeyInput>, items: &Vec<KeyInput>)
    ensures
        final(out)@ == old(out)@ + items@,
{
    let mut k: usize = 0;
    while k < items.len()
        invariant
            k <= items.len(),
            out@ == old(out)@ + items@.take(k as int),
        decreases items.len() - k,
    {
        out.push(items[k]);
        k += 1;
    }
}

impl RemapLayer {
    /// The first single entry, in declared order, that applies to `e` in
    /// state `s`.
    pub fn find_single(&self, s: StateId, e: KeyInput) -> (r: Option<usize>)
        ensures
            match r {
                Some(i) => i < self@.singles.len() && self@.first_single(s, e) == Some(i as int),
                None => self@.first_single(s, e) is None,
            },
    {
        let ghost hits = self@.single_hits(s, e);
        let mut i: usize = 0;
        while i < self.single_remap_entries.len()
            invariant
                i <= self.single_remap_entries.len(),
                hits == self@.single_hits(s, e),
                forall|j: int| 0 <= j < i ==> !hits[j],
            decreases self.single_remap_entries.len() - i,
        {
            if self.single_remap_entries[i].matches(s, e) {
                proof {
                    lemma_first_hit(hits);
                    assert(is_first_hit(hits, i as int));
                }
                return Some(i);
            }
            assert(!hits[i as int]);
            i += 1;
        }
        proof {
            lemma_first_hit(hits);
            assert(no_hit(hits));
        }
        None
    }

    /// The first pair entry, in declared order, of which `e` in state `s` is
    /// the first half.
    pub fn find_opener(&self, s: StateId, e: KeyInput) -> (r: Option<usize>)
        ensures
            match r {
                Some(i) => i < self@.pairs.len() && self@.first_opener(s, e) == Some(i as int),
                None => self@.first_opener(s, e) is None,
            },
    {
        let ghost hits = self@.opener_hits(s, e);
        let mut i: usize = 0;
        while i < self.pair_remap_entries.len()
            invariant
                i <= self.pair_remap_entries.len(),
                hits == self@.opener_hits(s, e),
                forall|j: int| 0 <= j < i ==> !hits[j],
            decreases self.pair_remap_entries.len() - i,
        {
            if self.pair_remap_entries[i].opens(s, e) {
                proof {
                    lemma_first_hit(hits);
                    assert(is_first_hit(hits, i as int));
                }
                return Some(i);
            }
            assert(!hits[i as int]);
            i += 1;
        }
        proof {
            lemma_first_hit(hits);
            assert(no_hit(hits));
        }
        None
    }

    /// The first pair entry, in declared order, whose chord in state `s` is
    /// `a` then `b`.
    pub fn find_pair(&self, s: StateId, a: KeyInput, b: KeyInput) -> (r: Option<usize>)
        ensures
            match r {
                Some(i) => i < self@.pairs.len() && self@.first_pair(s, a, b) == Some(i as int),
                None => self@.first_pair(s, a, b) is None,
            },
    {
        let ghost hits = self@.pair_hits(s, a, b);
        let mut i: usize = 0;
        while i < self.pair_remap_entries.len()
            invariant
                i <= self.pair_remap_entries.len(),
                hits == self@.pair_hits(s, a, b),
                forall|j: int| 0 <= j < i ==> !hits[j],
            decreases self.pair_remap_entries.len() - i,
        {
            if self.pair_remap_entries[i].matches(s, a, b) {
                proof {
                    lemma_first_hit(hits);
                    assert(is_first_hit(hits, i as int));
                }
                return Some(i);
            }
            assert(!hits[i as int]);
            i += 1;
        }
        proof {
            lemma_first_hit(hits);
            assert(no_hit(hits));
        }
        None
    }

    /// Whether the layer is declared without defect: no two single entries
    /// for the same event in the same state, no threshold of zero, no pair
    /// entry whose two events are the same.
    pub fn is_well_formed(&self) -> (r: bool)
        ensures
            r == self@.well_formed(),
    {
        let ghost spec = self@;
        let mut j: usize = 0;
        while j < self.pair_remap_entries.len()
            invariant
                j <= self.pair_remap_entries.len(),
                spec == self@,
                forall|k: int| 0 <= k < j ==> #[trigger] spec.sound_pair(k),
            decreases self.pair_remap_entries.len() - j,
        {
            let p = &self.pair_remap_entries[j];
            if p.threshold == 0 || p.input[0] == p.input[1] {
                assert(!spec.sound_pair(j as int));
                return false;
            }
            assert(spec.sound_pair(j as int));
            j += 1;
        }
        let n = self.single_remap_entries.len();
        let mut a: usize = 0;
        while a < n
            invariant
                a <= n,
                n == self.single_remap_entries.len(),
                spec == self@,
                forall|k: int| 0 <= k < spec.pairs.len() ==> #[trigger] spec.sound_pair(k),
                forall|x: int, y: int| 0 <= x < y < n && x < a ==> !#[trigger] spec.clash(x, y),
            decreases n - a,
        {
            let mut b: usize = a + 1;
            while b < n
                invariant
                    a < b <= n,
                    n == self.single_remap_entries.len(),
                    spec == self@,
                    forall|y: int| a < y < b ==> !#[trigger] spec.clash(a as int, y),
                decreases n - b,
            {
                let first = &self.single_remap_entries[a];
                let second = &self.single_remap_entries[b];
                if first.condition == second.condition && first.input == second.input {
                    assert(spec.clash(a as int, b as int));
                    return false;
                }
                assert(!spec.clash(a as int, b as int));
                b += 1;
            }
            a += 1;
        }
        true
    }
}

/// A running layer: a declaration together with the state it is in and the
/// event it may be holding back. Only its own steps change it.
#[derive(Clone, Debug)]
pub struct Layer {
    config: RemapLayer,
    current: LayerState,
}

impl Layer {
    /// The declaration the layer runs.
    pub closed spec fn spec(&self) -> LayerSpec {
        self.config@
    }

    /// What the layer carries at this moment.
    pub closed spec fn status(&self) -> LayerState {
        self.current
    }

    /// A layer at rest: in its initial state, holding nothing back.
    pub fn new(config: RemapLayer) -> (layer: Layer)
        ensures
            layer.spec() == config@,
            layer.status() == config@.idle(),
    {
        let current = LayerState { state: config.initial_state, pending: None };
        Layer { config, current }
    }

    /// The declaration the layer runs.
    pub fn config(&self) -> (c: &RemapLayer)
        ensures
            c@ == self.spec(),
    {
        &self.config
    }

    /// What the layer carries at this moment.
    pub fn current(&self) -> (st: LayerState)
        ensures
            st == self.status(),
    {
        self.current
    }

    /// Feeds the layer one event, arriving at `now`. Returns what the layer
    /// emits for it, in order.
    pub fn process(&mut self, e: KeyInput, now: u64) -> (emitted: Vec<KeyInput>)
        ensures
            final(self).spec() == old(self).spec(),
            final(self).status() == old(self).spec().step(old(self).status(), e, now).next,
            emitted@ == old(self).spec().step(old(self).status(), e, now).emitted,
    {
        let st = self.current;
        let mut emitted: Vec<KeyInput> = Vec::new();
        if let Some(p) = st.pending {
            if let Some(j) = self.config.find_pair(st.state, p.event, e) {
                let within = p.elapsed_at(now) <= self.config.pair_remap_entries[j].threshold as u64;
                if !p.is_expired(now) && within {
                    append(&mut emitted, &self.config.pair_remap_entries[j].output);
                    self.current = LayerState {
                        state: self.config.pair_remap_entries[j].transition,
                        pending: None,
                    };
                    return emitted;
                }
            }
            emitted.push(p.event);
        }
        match self.config.find_single(st.state, e) {
            Some(i) => {
                append(&mut emitted, &self.config.single_remap_entries[i].output);
                self.current = LayerState {
                    state: self.config.single_remap_entries[i].transition,
                    pending: None,
                };
            },
            None => match self.config.find_opener(st.state, e) {
                Some(j) => {
                    let held = Pending {
                        event: e,
                        since: now,
                        threshold: self.config.pair_remap_entries[j].threshold,
                    };
                    self.current = LayerState { state: st.state, pending: Some(held) };
                },
                None => {
                    emitted.push(e);
                    self.current = LayerState { state: st.state, pending: None };
                },
            },
        }
        emitted
    }

    /// Lets time pass to `now` with no event arriving. Returns the held
    /// event where it has outlived its limit, and nothing otherwise.
    pub fn expire(&mut self, now: u64) -> (emitted: Vec<KeyInput>)
        ensures
            final(self).spec() == old(self).spec(),
            final(self).status() == old(self).spec().timeout(old(self).status(), now).next,
            emitted@ == old(self).spec().timeout(old(self).status(), now).emitted,
    {
        let mut emitted: Vec<KeyInput> = Vec::new();
        if let Some(p) = self.current.pending {
            if p.is_expired(now) {
                emitted.push(p.event);
                self.current = LayerState { state: self.current.state, pending: None };
            }
        }
        emitted
    }

    /// The last instant at which the held event may still be held, where
    /// there is one.
    pub fn deadline(&self) -> (d: Option<u64>)
        ensures
            match self.status().pending {
                Some(p) => d == Some(p.deadline() as u64),
                None => d is None,
            },
    {
        match self.current.pending {
            Some(p) => Some(p.deadline_at()),
            None => None,
        }
    }
}

} // verus!
