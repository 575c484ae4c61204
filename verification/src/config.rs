//! The stock layers, and the configuration made of them.

use vstd::prelude::*;
use crate::engine::{DriverSpec, KeyConfig};
use crate::key::{Edge, Key, KeyInput};
use crate::keys::{
    CODE_A, CODE_B, CODE_BACKSPACE, CODE_CALC, CODE_CAPSLOCK, CODE_ENTER, CODE_HENKAN, CODE_K,
    CODE_L, CODE_LEFTCTRL, CODE_LEFTSHIFT, CODE_MUHENKAN, CODE_RO, CODE_SPACE, all_keys, key_a,
    key_b, key_backspace, key_calc, key_capslock, key_enter, key_henkan, key_k, key_l,
    key_leftctrl, key_leftshift, key_muhenkan, key_ro, key_space,
};
use crate::layer::{RemapLayer, append, pair_rules, single_rules};
use crate::model::{LayerSpec, LayerState, is_first_hit, lemma_first_hit, no_hit};
use crate::pipeline::{feed_all_from, feed_from, idle_states};
use crate::rule::{PairRemapEntry, PairRule, SingleRemapEntry, SingleRule, StateId};

verus! {

/// The press of the key with event code `code`.
pub open spec fn down(code: u16) -> KeyInput {
    KeyInput { key: Key { code }, edge: Edge::Press }
}

/// The release of the key with event code `code`.
pub open spec fn up(code: u16) -> KeyInput {
    KeyInput { key: Key { code }, edge: Edge::Release }
}

/// The single rule that, in state `condition`, replaces `input` by `output`
/// and moves to `transition`.
pub open spec fn rule(
    condition: StateId,
    input: KeyInput,
    output: Seq<KeyInput>,
    transition: StateId,
) -> SingleRule {
    SingleRule { condition, input, output, transition }
}

/// The entry that, in state `condition`, replaces `input` by `output` and
/// moves to `transition`.
pub fn single(
    condition: StateId,
    input: KeyInput,
    output: Vec<KeyInput>,
    transition: StateId,
) -> (e: SingleRemapEntry)
    ensures
        e@ == rule(condition, input, output@, transition),
{
    SingleRemapEntry { condition, input, output, transition }
}

/// The one event `e`, as a sequence.
pub fn just(e: KeyInput) -> (v: Vec<KeyInput>)
    ensures
        v@ == seq![e],
{
    let mut v: Vec<KeyInput> = Vec::new();
    v.push(e);
    v
}

/// What `config_swap_a_b` declares: a stateless layer that turns the press
/// of `A` into the press of `B` and the press of `B` into the press of `A`.
/// Releases are not touched.
pub open spec fn swap_a_b() -> LayerSpec {
    LayerSpec {
        name: "a to b"@,
        initial_state: 0,
        singles: seq![
            rule(0, down(CODE_A), seq![down(CODE_B)], 0),
            rule(0, down(CODE_B), seq![down(CODE_A)], 0),
        ],
        pairs: Seq::empty(),
    }
}

/// The layer that swaps the presses of `A` and `B`.
pub fn config_swap_a_b() -> (layer: RemapLayer)
    ensures
        layer@ == swap_a_b(),
{
    let a = key_a();
    let b = key_b();
    let mut singles: Vec<SingleRemapEntry> = Vec::new();
    singles.push(single(0, KeyInput::press(a), just(KeyInput::press(b)), 0));
    singles.push(single(0, KeyInput::press(b), just(KeyInput::press(a)), 0));
    let layer = RemapLayer {
        pair_remap_entries: Vec::new(),
        single_remap_entries: singles,
        layer_name: "a to b",
        initial_state: 0,
    };
    assert(layer@.singles =~= swap_a_b().singles);
    assert(layer@.pairs =~= swap_a_b().pairs);
    layer
}

/// A copy of `v`.
pub fn copy_of(v: &Vec<KeyInput>) -> (c: Vec<KeyInput>)
    ensures
        c@ == v@,
{
    let mut c: Vec<KeyInput> = Vec::new();
    append(&mut c, v);
    c
}

/// For each pair of `table`, in order, the rule that in state 0 replaces
/// the first key moving in direction `edge` by the second key moving the
/// same way.
pub open spec fn renamed(table: Seq<(Key, Key)>, edge: Edge) -> Seq<SingleRule> {
    Seq::new(
        table.len(),
        |i: int|
            rule(
                0,
                KeyInput { key: table[i].0, edge },
                seq![KeyInput { key: table[i].1, edge }],
                0,
            ),
    )
}

/// Appends to `out`, for each pair of `table`, the entry that replaces the
/// first key moving in direction `edge` by the second key moving the same
/// way.
pub fn push_renamed(out: &mut Vec<SingleRemapEntry>, table: &Vec<(Key, Key)>, edge: Edge)
    ensures
        single_rules(final(out)@) == single_rules(old(out)@) + renamed(table@, edge),
{
    let mut k: usize = 0;
    while k < table.len()
        invariant
            k <= table.len(),
            single_rules(out@) == single_rules(old(out)@) + renamed(table@.take(k as int), edge),
        decreases table.len() - k,
    {
        let ghost before = out@;
        let from = table[k].0;
        let to = table[k].1;
        out.push(
            single(0, KeyInput { key: from, edge }, just(KeyInput { key: to, edge }), 0),
        );
        assert(single_rules(out@) =~= single_rules(before).push(out@[out@.len() - 1]@));
        assert(renamed(table@.take(k + 1), edge) =~= renamed(table@.take(k as int), edge).push(
            out@[out@.len() - 1]@,
        ));
        k += 1;
    }
    assert(table@.take(table@.len() as int) == table@);
}

/// What `config_simple_remap` declares: a stateless layer that turns
/// `CAPSLOCK` into `LEFTCTRL`, `HENKAN` into `ENTER` and `MUHENKAN` into
/// `BACKSPACE`, presses first and then releases, and that turns `K` and `L`
/// pressed within 60 milliseconds into a shifted `RO`.
pub open spec fn simple_remap() -> LayerSpec {
    let table = seq![
        (Key { code: CODE_CAPSLOCK }, Key { code: CODE_LEFTCTRL }),
        (Key { code: CODE_HENKAN }, Key { code: CODE_ENTER }),
        (Key { code: CODE_MUHENKAN }, Key { code: CODE_BACKSPACE }),
    ];
    LayerSpec {
        name: "simple remap"@,
        initial_state: 0,
        singles: renamed(table, Edge::Press) + renamed(table, Edge::Release),
        pairs: seq![
            PairRule {
                condition: 0,
                first: down(CODE_K),
                second: down(CODE_L),
                output: seq![
                    down(CODE_LEFTSHIFT),
                    down(CODE_RO),
                    up(CODE_RO),
                    up(CODE_LEFTSHIFT),
                ],
                transition: 0,
                threshold: 60,
            },
        ],
    }
}

/// The layer of plain renamings and of the `K` `L` chord.
pub fn config_simple_remap() -> (layer: RemapLayer)
    ensures
        layer@ == simple_remap(),
{
    let mut table: Vec<(Key, Key)> = Vec::new();
    table.push((key_capslock(), key_leftctrl()));
    table.push((key_henkan(), key_enter()));
    table.push((key_muhenkan(), key_backspace()));
    let shift = key_leftshift();
    let ro = key_ro();
    let mut output: Vec<KeyInput> = Vec::new();
    output.push(KeyInput::press(shift));
    output.push(KeyInput::press(ro));
    output.push(KeyInput::release(ro));
    output.push(KeyInput::release(shift));
    let mut pairs: Vec<PairRemapEntry> = Vec::new();
    pairs.push(
        PairRemapEntry {
            condition: 0,
            input: [KeyInput::press(key_k()), KeyInput::press(key_l())],
            output,
            transition: 0,
            threshold: 60,
        },
    );
    let mut singles: Vec<SingleRemapEntry> = Vec::new();
    push_renamed(&mut singles, &table, Edge::Press);
    push_renamed(&mut singles, &table, Edge::Release);
    let layer = RemapLayer {
        pair_remap_entries: pairs,
        single_remap_entries: singles,
        layer_name: "simple remap",
        initial_state: 0,
    };
    proof {
        let spec_table = seq![
            (Key { code: CODE_CAPSLOCK }, Key { code: CODE_LEFTCTRL }),
            (Key { code: CODE_HENKAN }, Key { code: CODE_ENTER }),
            (Key { code: CODE_MUHENKAN }, Key { code: CODE_BACKSPACE }),
        ];
        assert(table@ =~= spec_table);
        assert(layer@.singles =~= simple_remap().singles);
        assert(layer@.pairs[0].output =~= simple_remap().pairs[0].output);
        assert(layer@.pairs =~= simple_remap().pairs);
    }
    layer
}

/// The states of the layer that makes `SPACE` a shift key while held.
#[derive(Debug, PartialEq, Eq, Clone, Copy, Hash)]
pub enum StateSands {
    /// `SPACE` is up.
    Normal,
    /// `SPACE` is down and no other key was pressed since.
    Space,
    /// `SPACE` is down and has shifted another key.
    Shift,
}

impl StateSands {
    /// The tag that stands for the state in the layer's entries.
    pub open spec fn tag(self) -> StateId {
        match self {
            StateSands::Normal => 0,
            StateSands::Space => 1,
            StateSands::Shift => 2,
        }
    }

    /// The tag that stands for the state in the layer's entries.
    pub fn id(self) -> (t: StateId)
        ensures
            t == self.tag(),
    {
        match self {
            StateSands::Normal => 0,
            StateSands::Space => 1,
            StateSands::Shift => 2,
        }
    }
}

/// The states of the layer that waits for a slow release of `LEFTSHIFT`.
#[derive(Debug, PartialEq, Eq, Clone, Copy, Hash)]
pub enum StateShiftRelease {
    /// `LEFTSHIFT` is up.
    Normal,
    /// `LEFTSHIFT` is down and no other key was pressed since.
    Shift,
    /// `LEFTSHIFT` is down and has shifted another key.
    ContinuousShift,
}

impl StateShiftRelease {
    /// The tag that stands for the state in the layer's entries.
    pub open spec fn tag(self) -> StateId {
        match self {
            StateShiftRelease::Normal => 0,
            StateShiftRelease::Shift => 1,
            StateShiftRelease::ContinuousShift => 2,
        }
    }

    /// The tag that stands for the state in the layer's entries.
    pub fn id(self) -> (t: StateId)
        ensures
            t == self.tag(),
    {
        match self {
            StateShiftRelease::Normal => 0,
            StateShiftRelease::Shift => 1,
            StateShiftRelease::ContinuousShift => 2,
        }
    }
}

/// The one rule, for each state of `states` in order: in that state,
/// replace `input` by `output`, and move to `transition`, or stay where
/// there is none.
pub open spec fn for_states(
    states: Seq<StateId>,
    input: KeyInput,
    output: Seq<KeyInput>,
    transition: Option<StateId>,
) -> Seq<SingleRule> {
    Seq::new(
        states.len(),
        |i: int|
            rule(
                states[i],
                input,
                output,
                match transition {
                    Some(t) => t,
                    None => states[i],
                },
            ),
    )
}

/// Appends to `out` one entry for each state of `states`: in that state,
/// replace `input` by `output`, and move to `transition`, or stay where
/// there is none.
pub fn push_for_states(
    out: &mut Vec<SingleRemapEntry>,
    states: &Vec<StateId>,
    input: KeyInput,
    output: &Vec<KeyInput>,
    transition: Option<StateId>,
)
    ensures
        single_rules(final(out)@) == single_rules(old(out)@) + for_states(
            states@,
            input,
            output@,
            transition,
        ),
{
    let mut k: usize = 0;
    while k < states.len()
        invariant
            k <= states.len(),
            single_rules(out@) == single_rules(old(out)@) + for_states(
                states@.take(k as int),
                input,
                output@,
                transition,
            ),
        decreases states.len() - k,
    {
        let ghost before = out@;
        let state = states[k];
        let next = match transition {
            Some(t) => t,
            None => state,
        };
        out.push(single(state, input, copy_of(output), next));
        assert(single_rules(out@) =~= single_rules(before).push(out@[out@.len() - 1]@));
        assert(for_states(states@.take(k + 1), input, output@, transition) =~= for_states(
            states@.take(k as int),
            input,
            output@,
            transition,
        ).push(out@[out@.len() - 1]@));
        k += 1;
    }
    assert(states@.take(states@.len() as int) == states@);
}

/// Holds of every key but `a` and `b`.
pub open spec fn is_neither(a: Key, b: Key) -> spec_fn(Key) -> bool {
    |k: Key| k != a && k != b
}

/// The keys of `keys` other than `a` and `b`, in order.
pub open spec fn others(keys: Seq<Key>, a: Key, b: Key) -> Seq<Key> {
    keys.filter(is_neither(a, b))
}

/// The keys of `keys` other than `a` and `b`, in order.
pub fn others_of(keys: &Vec<Key>, a: Key, b: Key) -> (rest: Vec<Key>)
    ensures
        rest@ == others(keys@, a, b),
{
    let mut rest: Vec<Key> = Vec::new();
    let mut k: usize = 0;
    proof {
        reveal(Seq::filter);
        assert(keys@.take(0) == Seq::<Key>::empty());
    }
    while k < keys.len()
        invariant
            k <= keys.len(),
            rest@ == others(keys@.take(k as int), a, b),
        decreases keys.len() - k,
    {
        proof {
            keys@.take(k as int).lemma_filter_push(keys@[k as int], is_neither(a, b));
            assert(keys@.take(k + 1) == keys@.take(k as int).push(keys@[k as int]));
        }
        if keys[k] != a && keys[k] != b {
            rest.push(keys[k]);
        }
        k += 1;
    }
    assert(keys@.take(keys@.len() as int) == keys@);
    rest
}

/// For each key of `keys`, in order, the rule that in state `condition`
/// lets the press of that key through and moves to `transition`.
pub open spec fn pressed_in(keys: Seq<Key>, condition: StateId, transition: StateId) -> Seq<
    SingleRule,
> {
    Seq::new(
        keys.len(),
        |i: int| rule(condition, down(keys[i].code), seq![down(keys[i].code)], transition),
    )
}

/// Appends to `out`, for each key of `keys`, the entry that in state
/// `condition` lets the press of that key through and moves to
/// `transition`.
pub fn push_pressed_in(
    out: &mut Vec<SingleRemapEntry>,
    keys: &Vec<Key>,
    condition: StateId,
    transition: StateId,
)
    ensures
        single_rules(final(out)@) == single_rules(old(out)@) + pressed_in(
            keys@,
            condition,
            transition,
        ),
{
    let mut k: usize = 0;
    while k < keys.len()
        invariant
            k <= keys.len(),
            single_rules(out@) == single_rules(old(out)@) + pressed_in(
                keys@.take(k as int),
                condition,
                transition,
            ),
        decreases keys.len() - k,
    {
        let ghost before = out@;
        let e = KeyInput::press(keys[k]);
        out.push(single(condition, e, just(e), transition));
        assert(single_rules(out@) =~= single_rules(before).push(out@[out@.len() - 1]@));
        assert(pressed_in(keys@.take(k + 1), condition, transition) =~= pressed_in(
            keys@.take(k as int),
            condition,
            transition,
        ).push(out@[out@.len() - 1]@));
        k += 1;
    }
    assert(keys@.take(keys@.len() as int) == keys@);
}

/// What the layer that makes `SPACE` a shift key declares, given the keys
/// `keys` of the keyboard. `SPACE` pressed alone gives a `SPACE` when it is
/// released; any other key of `keys` pressed while `SPACE` is down comes out
/// shifted, and the release of `SPACE` then only lifts the shift.
pub open spec fn sands(keys: Seq<Key>) -> LayerSpec {
    let normal = StateSands::Normal.tag();
    let space = StateSands::Space.tag();
    let shift = StateSands::Shift.tag();
    let space_key = Key { code: CODE_SPACE };
    let tap = seq![up(CODE_LEFTSHIFT), down(CODE_SPACE), up(CODE_SPACE)];
    LayerSpec {
        name: "SandS"@,
        initial_state: normal,
        singles: for_states(seq![normal], down(CODE_SPACE), seq![down(CODE_LEFTSHIFT)], Some(space))
            + for_states(seq![space, shift], down(CODE_SPACE), Seq::empty(), None)
            + for_states(seq![space], up(CODE_SPACE), tap, Some(normal))
            + for_states(seq![shift], up(CODE_SPACE), seq![up(CODE_LEFTSHIFT)], Some(normal))
            + pressed_in(others(keys, space_key, space_key), space, shift),
        pairs: Seq::empty(),
    }
}

/// The states `a`, as a sequence.
pub fn one_state(a: StateId) -> (v: Vec<StateId>)
    ensures
        v@ == seq![a],
{
    let mut v: Vec<StateId> = Vec::new();
    v.push(a);
    v
}

/// The layer that makes `SPACE` a shift key while it is held, for a
/// keyboard with the keys `keys`.
pub fn sands_layer(keys: &Vec<Key>) -> (layer: RemapLayer)
    ensures
        layer@ == sands(keys@),
{
    let normal = StateSands::Normal.id();
    let space_down = StateSands::Space.id();
    let shifting = StateSands::Shift.id();
    let space = key_space();
    let shift = key_leftshift();
    let mut singles: Vec<SingleRemapEntry> = Vec::new();
    push_for_states(
        &mut singles,
        &one_state(normal),
        KeyInput::press(space),
        &just(KeyInput::press(shift)),
        Some(space_down),
    );
    let mut both = one_state(space_down);
    both.push(shifting);
    push_for_states(&mut singles, &both, KeyInput::press(space), &Vec::new(), None);
    let mut tap = just(KeyInput::release(shift));
    tap.push(KeyInput::press(space));
    tap.push(KeyInput::release(space));
    push_for_states(
        &mut singles,
        &one_state(space_down),
        KeyInput::release(space),
        &tap,
        Some(normal),
    );
    push_for_states(
        &mut singles,
        &one_state(shifting),
        KeyInput::release(space),
        &just(KeyInput::release(shift)),
        Some(normal),
    );
    let rest = others_of(keys, space, space);
    push_pressed_in(&mut singles, &rest, space_down, shifting);
    let layer = RemapLayer {
        pair_remap_entries: Vec::new(),
        single_remap_entries: singles,
        layer_name: "SandS",
        initial_state: normal,
    };
    proof {
        assert(both@ =~= seq![space_down, shifting]);
        assert(tap@ =~= seq![up(CODE_LEFTSHIFT), down(CODE_SPACE), up(CODE_SPACE)]);
        assert(single_rules(Seq::<SingleRemapEntry>::empty()) =~= Seq::<SingleRule>::empty());
        assert(layer@.singles =~= sands(keys@).singles);
        assert(layer@.pairs =~= sands(keys@).pairs);
    }
    layer
}

/// The layer that makes `SPACE` a shift key while it is held, for the keys
/// that `evdev_keys` lists.
pub fn config_sands() -> (layer: RemapLayer)
    ensures
        exists|keys: Seq<Key>| layer@ == sands(keys),
{
    let keys = all_keys();
    sands_layer(&keys)
}

/// For each key of `keys`, in order, the chord rule that in state
/// `condition` takes the release of `lifted` followed within `threshold`
/// milliseconds by the press of that key, gives both out at once and moves
/// to `transition`.
pub open spec fn released_before(
    keys: Seq<Key>,
    lifted: Key,
    condition: StateId,
    transition: StateId,
    threshold: u32,
) -> Seq<PairRule> {
    Seq::new(
        keys.len(),
        |i: int|
            PairRule {
                condition,
                first: up(lifted.code),
                second: down(keys[i].code),
                output: seq![up(lifted.code), down(keys[i].code)],
                transition,
                threshold,
            },
    )
}

/// For each key of `keys`, the chord entry that in state `condition` takes
/// the release of `lifted` followed within `threshold` milliseconds by the
/// press of that key, gives both out at once and moves to `transition`.
pub fn released_before_of(
    keys: &Vec<Key>,
    lifted: Key,
    condition: StateId,
    transition: StateId,
    threshold: u32,
) -> (out: Vec<PairRemapEntry>)
    ensures
        pair_rules(out@) == released_before(keys@, lifted, condition, transition, threshold),
{
    let mut out: Vec<PairRemapEntry> = Vec::new();
    let mut k: usize = 0;
    while k < keys.len()
        invariant
            k <= keys.len(),
            pair_rules(out@) == released_before(
                keys@.take(k as int),
                lifted,
                condition,
                transition,
                threshold,
            ),
        decreases keys.len() - k,
    {
        let ghost before = out@;
        let first = KeyInput::release(lifted);
        let second = KeyInput::press(keys[k]);
        let mut output = just(first);
        output.push(second);
        out.push(
            PairRemapEntry { condition, input: [first, second], output, transition, threshold },
        );
        assert(out@[out@.len() - 1]@.output =~= seq![first, second]);
        assert(pair_rules(out@) =~= pair_rules(before).push(out@[out@.len() - 1]@));
        assert(released_before(keys@.take(k + 1), lifted, condition, transition, threshold)
            =~= released_before(
            keys@.take(k as int),
            lifted,
            condition,
            transition,
            threshold,
        ).push(out@[out@.len() - 1]@));
        k += 1;
    }
    assert(keys@.take(keys@.len() as int) == keys@);
    out
}

/// What the layer that waits for a slow release of `LEFTSHIFT` declares,
/// given the keys `keys` of the keyboard. The single entries follow
/// `LEFTSHIFT` through its three states. The pair entries, one for each key
/// of `keys` other than `LEFTSHIFT` and `SPACE`, are chords of the release
/// of `LEFTSHIFT`, after it has shifted a key, with the press of that key
/// within 120 milliseconds. A single entry for that release stands in the
/// same state, and a single entry is tried before a chord is opened: see
/// `lemma_shift_release_is_not_held`.
pub open spec fn wait_slow_shift_release(keys: Seq<Key>) -> LayerSpec {
    let normal = StateShiftRelease::Normal.tag();
    let shift = StateShiftRelease::Shift.tag();
    let continuous = StateShiftRelease::ContinuousShift.tag();
    let lshift = Key { code: CODE_LEFTSHIFT };
    LayerSpec {
        name: "wait slow shift release"@,
        initial_state: normal,
        singles: pressed_in(others(keys, lshift, lshift), shift, continuous) + seq![
            rule(normal, down(CODE_LEFTSHIFT), seq![down(CODE_LEFTSHIFT)], shift),
            rule(shift, up(CODE_LEFTSHIFT), seq![up(CODE_LEFTSHIFT)], normal),
            rule(continuous, up(CODE_LEFTSHIFT), seq![up(CODE_LEFTSHIFT)], normal),
        ],
        pairs: released_before(
            others(keys, lshift, Key { code: CODE_SPACE }),
            lshift,
            continuous,
            normal,
            120,
        ),
    }
}

/// The layer that waits for a slow release of `LEFTSHIFT`, for a keyboard
/// with the keys `keys`.
pub fn wait_slow_shift_release_layer(keys: &Vec<Key>) -> (layer: RemapLayer)
    ensures
        layer@ == wait_slow_shift_release(keys@),
{
    let normal = StateShiftRelease::Normal.id();
    let shifting = StateShiftRelease::Shift.id();
    let continuous = StateShiftRelease::ContinuousShift.id();
    let shift = key_leftshift();
    let space = key_space();
    let pairs = released_before_of(&others_of(keys, shift, space), shift, continuous, normal, 120);
    let mut singles: Vec<SingleRemapEntry> = Vec::new();
    push_pressed_in(&mut singles, &others_of(keys, shift, shift), shifting, continuous);
    let ghost front = single_rules(singles@);
    let down_shift = KeyInput::press(shift);
    let up_shift = KeyInput::release(shift);
    singles.push(single(normal, down_shift, just(down_shift), shifting));
    singles.push(single(shifting, up_shift, just(up_shift), normal));
    singles.push(single(continuous, up_shift, just(up_shift), normal));
    let layer = RemapLayer {
        pair_remap_entries: pairs,
        single_remap_entries: singles,
        layer_name: "wait slow shift release",
        initial_state: normal,
    };
    proof {
        assert(single_rules(Seq::<SingleRemapEntry>::empty()) =~= Seq::<SingleRule>::empty());
        let n = layer@.singles.len();
        assert(layer@.singles =~= front + seq![
            layer@.singles[n - 3],
            layer@.singles[n - 2],
            layer@.singles[n - 1],
        ]);
        assert(layer@.singles =~= wait_slow_shift_release(keys@).singles);
    }
    layer
}

/// The layer that waits for a slow release of `LEFTSHIFT`, for the keys that
/// `evdev_keys` lists.
pub fn config_wait_slow_shift_release() -> (layer: RemapLayer)
    ensures
        exists|keys: Seq<Key>| layer@ == wait_slow_shift_release(keys),
{
    let keys = all_keys();
    wait_slow_shift_release_layer(&keys)
}

/// What the stock configuration declares, given the keys `keys` of the
/// keyboard: the renamings, `SPACE` as a shift key, the wait for a slow
/// release of `LEFTSHIFT`, and the swap of `A` and `B` twice over, in that
/// order; `CALC` stops the engine.
pub open spec fn stock(keys: Seq<Key>) -> DriverSpec {
    DriverSpec {
        layers: seq![
            simple_remap(),
            sands(keys),
            wait_slow_shift_release(keys),
            swap_a_b(),
            swap_a_b(),
        ],
        stop_key: Some(Key { code: CODE_CALC }),
    }
}

/// The stock configuration for a keyboard with the keys `keys`.
pub fn stock_config_for(keys: &Vec<Key>) -> (config: KeyConfig)
    ensures
        config@ == stock(keys@),
{
    let config = KeyConfig::new()
        .add_layer(config_simple_remap())
        .add_layer(sands_layer(keys))
        .add_layer(wait_slow_shift_release_layer(keys))
        .add_layer(config_swap_a_b())
        .add_layer(config_swap_a_b());
    let config = KeyConfig { layers: config.layers, emergency_stop_key: Some(key_calc()) };
    assert(config@.layers =~= stock(keys@).layers);
    config
}

/// The stock configuration for the keys that `evdev_keys` lists.
pub fn stock_config() -> (config: KeyConfig)
    ensures
        exists|keys: Seq<Key>| config@ == stock(keys),
{
    let keys = all_keys();
    stock_config_for(&keys)
}

/// What the swap layer makes of `e`: the press of `A` becomes the press of
/// `B` and the other way round; every other event stays.
pub open spec fn swapped(e: KeyInput) -> KeyInput {
    if e == down(CODE_A) {
        down(CODE_B)
    } else if e == down(CODE_B) {
        down(CODE_A)
    } else {
        e
    }
}

/// The swap layer emits `swapped(e)` for `e`, and stays at rest.
pub proof fn lemma_swap_step(e: KeyInput, now: u64)
    ensures
        swap_a_b().step(swap_a_b().idle(), e, now).emitted == seq![swapped(e)],
        swap_a_b().step(swap_a_b().idle(), e, now).next == swap_a_b().idle(),
{
    let spec = swap_a_b();
    let hits = spec.single_hits(0, e);
    lemma_first_hit(hits);
    lemma_first_hit(spec.opener_hits(0, e));
    assert(no_hit(spec.opener_hits(0, e)));
    if e == down(CODE_A) {
        assert(is_first_hit(hits, 0));
    } else if e == down(CODE_B) {
        assert(is_first_hit(hits, 1));
    } else {
        assert(no_hit(hits));
    }
    assert(spec.step(spec.idle(), e, now).emitted =~= seq![swapped(e)]);
}

/// The swap layer applied twice changes nothing: whatever event enters two
/// swap layers at rest leaves them as it entered, and they stay at rest.
/// A layer declared twice is run twice; nothing merges the two.
pub proof fn lemma_swap_twice_cancels(e: KeyInput, now: u64)
    ensures
        ({
            let specs = seq![swap_a_b(), swap_a_b()];
            let r = feed_from(specs, idle_states(specs), 0, e, now);
            &&& r.emitted == seq![e]
            &&& r.states == idle_states(specs)
        }),
{
    let specs = seq![swap_a_b(), swap_a_b()];
    let states = idle_states(specs);
    let mid = swapped(e);
    lemma_swap_step(e, now);
    lemma_swap_step(mid, now);
    assert(swapped(mid) == e);
    assert(states.update(0, swap_a_b().idle()) =~= states);
    assert(states.update(1, swap_a_b().idle()) =~= states);
    let none = Seq::<KeyInput>::empty();
    assert(seq![e].drop_first() =~= none);
    assert(seq![mid].drop_first() =~= none);
    // Below the second layer, `e` is what comes out.
    let below = feed_all_from(specs, states, 2, seq![e], now);
    assert(below.emitted == seq![e] && below.states == states);
    let second = feed_from(specs, states, 1, mid, now);
    assert(second.emitted == seq![e] && second.states == states);
    let after_second = feed_all_from(specs, states, 1, none, now);
    assert(after_second.emitted == none && after_second.states == states);
    let through_second = feed_all_from(specs, states, 1, seq![mid], now);
    assert(through_second.emitted =~= seq![e] && through_second.states == states);
}

/// In the layer that waits for a slow release of `LEFTSHIFT`, that release
/// is never held back: after `LEFTSHIFT` has shifted a key, its release
/// meets the single entry declared for it, comes out at once and brings the
/// layer back to its normal state. The chords declared on that release
/// stand behind the single entry and do not open.
pub proof fn lemma_shift_release_is_not_held(keys: Seq<Key>, now: u64)
    ensures
        ({
            let layer = wait_slow_shift_release(keys);
            let st = LayerState { state: StateShiftRelease::ContinuousShift.tag(), pending: None };
            let r = layer.step(st, up(CODE_LEFTSHIFT), now);
            &&& r.emitted == seq![up(CODE_LEFTSHIFT)]
            &&& r.next == LayerState { state: StateShiftRelease::Normal.tag(), pending: None }
        }),
{
    let layer = wait_slow_shift_release(keys);
    let continuous = StateShiftRelease::ContinuousShift.tag();
    let e = up(CODE_LEFTSHIFT);
    let hits = layer.single_hits(continuous, e);
    let last = layer.singles.len() - 1;
    lemma_first_hit(hits);
    assert(is_first_hit(hits, last));
    let r = layer.step(LayerState { state: continuous, pending: None }, e, now);
    assert(r.emitted =~= seq![e]);
}

} // verus!
