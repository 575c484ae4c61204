//! Keys, edges and key events.

use vstd::prelude::*;

verus! {

/// A physical key, identified by its Linux input event code.
#[derive(Clone, Copy, PartialEq, Eq, Structural, Debug, Hash)]
pub struct Key {
    pub code: u16,
}

/// The direction of a key transition.
#[derive(Clone, Copy, PartialEq, Eq, Structural, Debug, Hash)]
pub enum Edge {
    Press,
    Release,
}

/// One key transition: which key, and in which direction.
#[derive(Clone, Copy, PartialEq, Eq, Structural, Debug, Hash)]
pub struct KeyInput {
    pub key: Key,
    pub edge: Edge,
}

/// A key event with the time, in milliseconds, at which it arrived. Only the
/// differences between such times matter.
#[derive(Clone, Copy, Debug, PartialEq, Eq)]
pub struct TimedEvent {
    pub event: KeyInput,
    pub arrival_time: u64,
}

/// What can happen to a running engine or layer: an event arrives, or time
/// passes with none arriving. Both come in one order.
#[derive(Clone, Copy, Debug, PartialEq, Eq)]
pub enum Stimulus {
    /// This event has arrived.
    Key(TimedEvent),
    /// The clock has reached this instant, in milliseconds.
    Tick(u64),
}

impl Key {
    /// The key with the given event code.
    pub fn new(code: u16) -> (k: Key)
        ensures
            k.code == code,
    {
        Key { code }
    }
}

impl Edge {
    /// The edge that an input event's value stands for: 0 is a release, 1 a
    /// press and 2 a press repeated while the key is held.
    pub open spec fn of_value(value: i32) -> Option<Edge> {
        if value == 0 {
            Some(Edge::Release)
        } else if value == 1 || value == 2 {
            Some(Edge::Press)
        } else {
            None
        }
    }

    /// The edge that an input event's value stands for, or `None` where the
    /// value stands for none.
    pub fn from_value(value: i32) -> (r: Option<Edge>)
        ensures
            r == Edge::of_value(value),
    {
        if value == 0 {
            Some(Edge::Release)
        } else if value == 1 || value == 2 {
            Some(Edge::Press)
        } else {
            None
        }
    }

    /// The value that an input event carries for this edge: 1 for a press,
    /// 0 for a release.
    pub fn value(self) -> (v: i32)
        ensures
            v == (if self is Press { 1i32 } else { 0i32 }),
            Edge::of_value(v) == Some(self),
    {
        match self {
            Edge::Press => 1,
            Edge::Release => 0,
        }
    }
}

impl KeyInput {
    /// The press of `key`.
    pub fn press(key: Key) -> (e: KeyInput)
        ensures
            e == (KeyInput { key, edge: Edge::Press }),
    {
        KeyInput { key, edge: Edge::Press }
    }

    /// The release of `key`.
    pub fn release(key: Key) -> (e: KeyInput)
        ensures
            e == (KeyInput { key, edge: Edge::Release }),
    {
        KeyInput { key, edge: Edge::Release }
    }

    /// Whether two events are the same key moving in the same direction.
    pub fn same(&self, other: &KeyInput) -> (r: bool)
        ensures
            r == (*self == *other),
    {
        self.key == other.key && self.edge == other.edge
    }
}

} // verus!
