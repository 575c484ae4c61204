//! The driver's decisions: what to do with each event that arrives and with
//! each passing of time. Reading the device, waiting and writing the result
//! are the caller's part.

use vstd::prelude::*;
use crate::key::{Key, KeyInput, Stimulus, TimedEvent};
use crate::layer::RemapLayer;
use crate::model::{LayerSpec, LayerState};
use crate::pipeline::{
    PipeOutcome, Pipeline, advance_from, earliest_deadline_is, feed_from, idle_states, none_held,
};

verus! {

/// Why a configuration could not be built.
#[derive(Clone, Copy, Debug, PartialEq, Eq, Structural)]
pub enum ConfigError {
    /// An emergency stop key was given where one was already set.
    StopKeyAlreadySet,
}

/// The declaration of an engine: its layers, first layer first, and the key
/// that stops it.
#[derive(Clone, Debug, PartialEq, Eq)]
pub struct KeyConfig {
    pub layers: Vec<RemapLayer>,
    pub emergency_stop_key: Option<Key>,
}

/// What the caller is to do after a step of the engine.
#[derive(Clone, Debug, PartialEq, Eq)]
pub enum Action {
    /// Send these events to the output, in order.
    Emit(Vec<KeyInput>),
    /// Stop at once and send nothing.
    Stop,
}

/// An engine as declared.
pub struct DriverSpec {
    pub layers: Seq<LayerSpec>,
    pub stop_key: Option<Key>,
}

/// What an engine carries from one step to the next.
pub struct DriverState {
    pub layers: Seq<LayerState>,
    pub stopped: bool,
}

/// The result of one step of an engine.
pub struct Verdict {
    pub next: DriverState,
    /// Whether the caller is told to stop.
    pub stop: bool,
    /// What the caller is told to send; empty where it is told to stop.
    pub emitted: Seq<KeyInput>,
}

/// An event arrives at a stack of layers at `now`: first every held event
/// that is overdue at `now` is let go, then the event enters the first layer.
pub open spec fn dispatch(
    specs: Seq<LayerSpec>,
    states: Seq<LayerState>,
    e: KeyInput,
    now: u64,
) -> PipeOutcome {
    let a = advance_from(specs, states, 0, now);
    let b = feed_from(specs, a.states, 0, e, now);
    PipeOutcome { states: b.states, emitted: a.emitted + b.emitted }
}

impl DriverSpec {
    /// The state an engine starts in.
    pub open spec fn start(self) -> DriverState {
        DriverState { layers: idle_states(self.layers), stopped: false }
    }

    /// The event is one of the emergency stop key, on either edge.
    pub open spec fn is_stop(self, e: KeyInput) -> bool {
        self.stop_key == Some(e.key)
    }

    /// The engine's reply where it stops or has stopped: nothing is sent and
    /// no layer is touched, so what the layers hold back stays held.
    pub open spec fn halt(self, st: DriverState) -> Verdict {
        Verdict {
            next: DriverState { layers: st.layers, stopped: true },
            stop: true,
            emitted: Seq::empty(),
        }
    }

    /// One event arrives. The stop key is looked for before any layer sees
    /// the event.
    pub open spec fn on_event(self, st: DriverState, ev: TimedEvent) -> Verdict {
        if st.stopped || self.is_stop(ev.event) {
            self.halt(st)
        } else {
            let r = dispatch(self.layers, st.layers, ev.event, ev.arrival_time);
            Verdict {
                next: DriverState { layers: r.states, stopped: false },
                stop: false,
                emitted: r.emitted,
            }
        }
    }

    /// Time passes to `now` with no event arriving.
    pub open spec fn on_timer(self, st: DriverState, now: u64) -> Verdict {
        if st.stopped {
            self.halt(st)
        } else {
            let r = advance_from(self.layers, st.layers, 0, now);
            Verdict {
                next: DriverState { layers: r.states, stopped: false },
                stop: false,
                emitted: r.emitted,
            }
        }
    }
}

impl DriverSpec {
    /// One step of the engine, on whichever of the two happened.
    pub open spec fn react(self, st: DriverState, x: Stimulus) -> Verdict {
        match x {
            Stimulus::Key(ev) => self.on_event(st, ev),
            Stimulus::Tick(now) => self.on_timer(st, now),
        }
    }

    /// The engine's steps on `xs`, one after the other: the state it ends
    /// in, all it told the caller to send, and whether it told it to stop.
    pub open spec fn run(self, st: DriverState, xs: Seq<Stimulus>) -> Verdict
        decreases xs.len(),
    {
        if xs.len() == 0 {
            Verdict { next: st, stop: st.stopped, emitted: Seq::empty() }
        } else {
            let a = self.react(st, xs[0]);
            let b = self.run(a.next, xs.drop_first());
            Verdict { next: b.next, stop: b.stop, emitted: a.emitted + b.emitted }
        }
    }
}

impl Action {
    /// The action tells the caller what the verdict says.
    pub open spec fn tells(self, v: Verdict) -> bool {
        match self {
            Action::Stop => v.stop,
            Action::Emit(out) => !v.stop && out@ == v.emitted,
        }
    }
}

impl View for KeyConfig {
    type V = DriverSpec;

    open spec fn view(&self) -> DriverSpec {
        DriverSpec {
            layers: Seq::new(self.layers@.len(), |i: int| self.layers@[i]@),
            stop_key: self.emergency_stop_key,
        }
    }
}

impl Default for KeyConfig {
    /// A configuration with no layers and no emergency stop key.
    fn default() -> (c: KeyConfig)
        ensures
            c.layers@.len() == 0,
            c.emergency_stop_key is None,
    {
        KeyConfig { layers: Vec::new(), emergency_stop_key: None }
    }
}

impl KeyConfig {
    /// A configuration with no layers and no emergency stop key.
    pub fn new() -> (c: KeyConfig)
        ensures
            c.layers@.len() == 0,
            c.emergency_stop_key is None,
    {
        KeyConfig { layers: Vec::new(), emergency_stop_key: None }
    }

    /// Adds `layer` below the layers already declared. Nothing is merged or
    /// left out: a layer added twice runs twice.
    pub fn add_layer(self, layer: RemapLayer) -> (c: KeyConfig)
        ensures
            c.layers@ == self.layers@.push(layer),
            c.emergency_stop_key == self.emergency_stop_key,
    {
        let mut c = self;
        c.layers.push(layer);
        c
    }

    /// Sets the emergency stop key. There can be one only: where one is set
    /// already, the configuration is refused.
    pub fn emergency_stop_key(self, key: Key) -> (r: Result<KeyConfig, ConfigError>)
        ensures
            match r {
                Ok(c) => self.emergency_stop_key is None && c.layers == self.layers
                    && c.emergency_stop_key == Some(key),
                Err(e) => self.emergency_stop_key is Some && e == ConfigError::StopKeyAlreadySet,
            },
    {
        if self.emergency_stop_key.is_some() {
            return Err(ConfigError::StopKeyAlreadySet);
        }
        let mut c = self;
        c.emergency_stop_key = Some(key);
        Ok(c)
    }
}

/// A running engine: the pipeline, the emergency stop key, and whether the
/// engine has stopped.
#[derive(Clone, Debug)]
pub struct Engine {
    pipeline: Pipeline,
    stop_key: Option<Key>,
    stopped: bool,
}

impl Engine {
    /// The declaration the engine runs.
    pub closed spec fn spec(&self) -> DriverSpec {
        DriverSpec { layers: self.pipeline.specs(), stop_key: self.stop_key }
    }

    /// What the engine carries at this moment.
    pub closed spec fn status(&self) -> DriverState {
        DriverState { layers: self.pipeline.states(), stopped: self.stopped }
    }

    /// An engine at rest, running `config`.
    pub fn new(config: KeyConfig) -> (engine: Engine)
        ensures
            engine.spec() == config@,
            engine.status() == config@.start(),
    {
        let stop_key = config.emergency_stop_key;
        Engine { pipeline: Pipeline::from_layers(config.layers), stop_key, stopped: false }
    }

    /// Whether the engine has stopped.
    pub fn is_stopped(&self) -> (r: bool)
        ensures
            r == self.status().stopped,
    {
        self.stopped
    }

    /// The number of layers.
    pub fn layer_count(&self) -> (n: usize)
        ensures
            n == self.spec().layers.len(),
            n == self.status().layers.len(),
    {
        self.pipeline.len()
    }

    /// What layer `i` carries at this moment, or `None` where there is no
    /// layer `i`.
    pub fn layer_state(&self, i: usize) -> (st: Option<LayerState>)
        ensures
            i < self.status().layers.len() ==> st == Some(self.status().layers[i as int]),
            i >= self.status().layers.len() ==> st is None,
    {
        self.pipeline.state_of(i)
    }

    /// Whether `e` is an event of the emergency stop key.
    pub fn is_stop_event(&self, e: KeyInput) -> (r: bool)
        ensures
            r == self.spec().is_stop(e),
    {
        match self.stop_key {
            Some(k) => k == e.key,
            None => false,
        }
    }

    /// One event has arrived. Tells the caller what to send, or to stop.
    pub fn on_event(&mut self, ev: TimedEvent) -> (action: Action)
        ensures
            final(self).spec() == old(self).spec(),
            final(self).status() == old(self).spec().on_event(old(self).status(), ev).next,
            action.tells(old(self).spec().on_event(old(self).status(), ev)),
    {
        if self.stopped || self.is_stop_event(ev.event) {
            self.stopped = true;
            return Action::Stop;
        }
        let mut out = self.pipeline.advance(ev.arrival_time);
        let mut fed = self.pipeline.feed(ev.event, ev.arrival_time);
        out.append(&mut fed);
        Action::Emit(out)
    }

    /// Time has passed to `now` with no event arriving. Tells the caller
    /// what to send, or to stop.
    pub fn on_timer(&mut self, now: u64) -> (action: Action)
        ensures
            final(self).spec() == old(self).spec(),
            final(self).status() == old(self).spec().on_timer(old(self).status(), now).next,
            action.tells(old(self).spec().on_timer(old(self).status(), now)),
    {
        if self.stopped {
            return Action::Stop;
        }
        let out = self.pipeline.advance(now);
        Action::Emit(out)
    }

    /// One step, on whichever of the two happened: an event has arrived, or
    /// time has passed with none arriving.
    pub fn handle(&mut self, x: Stimulus) -> (action: Action)
        ensures
            final(self).spec() == old(self).spec(),
            final(self).status() == old(self).spec().react(old(self).status(), x).next,
            action.tells(old(self).spec().react(old(self).status(), x)),
    {
        match x {
            Stimulus::Key(ev) => self.on_event(ev),
            Stimulus::Tick(now) => self.on_timer(now),
        }
    }

    /// The instant after which the caller is to report the passing of time
    /// with `on_timer`, if no event arrives before: the earliest deadline of
    /// an event held by a layer. `None` where nothing is held or the engine
    /// has stopped.
    pub fn next_deadline(&self) -> (d: Option<u64>)
        ensures
            self.status().stopped ==> d is None,
            !self.status().stopped ==> match d {
                Some(x) => earliest_deadline_is(self.status().layers, x as int),
                None => none_held(self.status().layers),
            },
    {
        if self.stopped {
            None
        } else {
            self.pipeline.next_deadline()
        }
    }
}

} // verus!
