//! Remap entries: the rules a layer is declared with.

use vstd::prelude::*;
use crate::key::KeyInput;

verus! {

/// The tag of a layer's state. A stateless layer uses the single tag 0; a
/// stateful one numbers the members of its enumeration.
pub type StateId = u32;

/// In state `condition`, on `input`, emit `output` and move to `transition`.
#[derive(Clone, Debug, PartialEq, Eq, Hash)]
pub struct SingleRemapEntry {
    pub condition: StateId,
    pub input: KeyInput,
    pub output: Vec<KeyInput>,
    pub transition: StateId,
}

/// In state `condition`, on the two events of `input` arriving in that order
/// no more than `threshold` milliseconds apart, emit `output` and move to
/// `transition`.
#[derive(Clone, Debug, PartialEq, Eq, Hash)]
pub struct PairRemapEntry {
    pub condition: StateId,
    pub input: [KeyInput; 2],
    pub output: Vec<KeyInput>,
    pub transition: StateId,
    pub threshold: u32,
}

/// What a single entry says.
pub struct SingleRule {
    pub condition: StateId,
    pub input: KeyInput,
    pub output: Seq<KeyInput>,
    pub transition: StateId,
}

/// What a pair entry says.
pub struct PairRule {
    pub condition: StateId,
    pub first: KeyInput,
    pub second: KeyInput,
    pub output: Seq<KeyInput>,
    pub transition: StateId,
    pub threshold: u32,
}

impl SingleRule {
    /// The rule applies to event `e` in state `s`.
    pub open spec fn matches(self, s: StateId, e: KeyInput) -> bool {
        self.condition == s && self.input == e
    }
}

impl PairRule {
    /// Event `e` in state `s` is the first half of this chord.
    pub open spec fn opens(self, s: StateId, e: KeyInput) -> bool {
        self.condition == s && self.first == e
    }

    /// Events `a` then `b` in state `s` are this chord.
    pub open spec fn matches(self, s: StateId, a: KeyInput, b: KeyInput) -> bool {
        self.condition == s && self.first == a && self.second == b
    }
}

impl View for SingleRemapEntry {
    type V = SingleRule;

    open spec fn view(&self) -> SingleRule {
        SingleRule {
            condition: self.condition,
            input: self.input,
            output: self.output@,
            transition: self.transition,
        }
    }
}

impl View for PairRemapEntry {
    type V = PairRule;

    open spec fn view(&self) -> PairRule {
        PairRule {
            condition: self.condition,
            first: self.input@[0],
            second: self.input@[1],
            output: self.output@,
            transition: self.transition,
            threshold: self.threshold,
        }
    }
}

impl SingleRemapEntry {
    /// Whether the entry applies to event `e` in state `s`.
    pub fn matches(&self, s: StateId, e: KeyInput) -> (r: bool)
        ensures
            r == self@.matches(s, e),
    {
        self.condition == s && self.input == e
    }
}

impl PairRemapEntry {
    /// Whether event `e` in state `s` is the first half of this chord.
    pub fn opens(&self, s: StateId, e: KeyInput) -> (r: bool)
        ensures
            r == self@.opens(s, e),
    {
        self.condition == s && self.input[0] == e
    }

    /// Whether events `a` then `b` in state `s` are this chord.
    pub fn matches(&self, s: StateId, a: KeyInput, b: KeyInput) -> (r: bool)
        ensures
            r == self@.matches(s, a, b),
    {
        self.condition == s && self.input[0] == a && self.input[1] == b
    }
}

} // verus!
