use keyremap::config::{
    config_sands, config_simple_remap, config_swap_a_b, config_wait_slow_shift_release,
};
use keyremap::engine::KeyConfig;
use keyremap::key::{Edge, Key, KeyInput};
use keyremap::layer::{append, Layer, RemapLayer};
use keyremap::rule::{PairRemapEntry, SingleRemapEntry};

fn press(code: u16) -> KeyInput {
    KeyInput::press(Key::new(code))
}

fn release(code: u16) -> KeyInput {
    KeyInput::release(Key::new(code))
}

fn presses(events: &[KeyInput]) -> usize {
    events.iter().filter(|e| e.edge == Edge::Press).count()
}

const A: u16 = 30;
const B: u16 = 48;
const C: u16 = 46;
const D: u16 = 32;
const E: u16 = 18;
const X: u16 = 45;

fn mixed_layer() -> RemapLayer {
    RemapLayer {
        pair_remap_entries: vec![PairRemapEntry {
            condition: 0,
            input: [press(C), press(D)],
            output: vec![press(X)],
            transition: 0,
            threshold: 50,
        }],
        single_remap_entries: vec![SingleRemapEntry {
            condition: 0,
            input: press(A),
            output: vec![press(B), release(B)],
            transition: 0,
        }],
        layer_name: "mixed",
        initial_state: 0,
    }
}

#[test]
fn every_event_of_a_run_is_accounted_for() {
    let mut l = Layer::new(mixed_layer());
    let mut out = Vec::new();
    // Rewritten by the single entry.
    out.extend(l.process(press(A), 0));
    // Held, then taken up by the chord together with `D`.
    out.extend(l.process(press(C), 10));
    out.extend(l.process(press(D), 20));
    // Held, then let go when `E` interrupts; `E` passes through.
    out.extend(l.process(press(C), 100));
    out.extend(l.process(press(E), 110));
    out.extend(l.process(release(E), 120));
    // Held to the end of the run.
    out.extend(l.process(press(C), 130));
    assert_eq!(
        out,
        vec![press(B), release(B), press(X), press(C), press(E), release(E)]
    );
    let arrived = 7;
    let (passed, rewritten, chorded, held) = (3, 1, 2, 1);
    assert_eq!(arrived, passed + rewritten + chorded + held);
    assert!(l.current().pending.is_some());
    // Two events came out of the single entry, one out of the chord.
    assert_eq!(out.len(), passed + 2 + 1);
    // Presses: `C` and `E` let through, `B` and `X` from the entries.
    assert_eq!(presses(&out), 2 + 1 + 1);

    // Time lets the last event go: now nothing is held and all is out.
    out.extend(l.expire(200));
    assert_eq!(out.len(), 7);
    assert_eq!(out[6], press(C));
    assert_eq!(presses(&out), 5);
    assert_eq!(l.current().pending, None);
}

#[test]
fn layer_without_entries_gives_back_every_event() {
    let mut l = Layer::new(RemapLayer::default());
    let input = vec![press(A), press(B), release(A), release(B), press(C)];
    let mut out = Vec::new();
    for (t, e) in input.iter().enumerate() {
        out.extend(l.process(*e, t as u64));
    }
    assert_eq!(out, input);
    assert_eq!(presses(&out), 3);
}

#[test]
fn default_layer_and_config_are_empty() {
    let l = RemapLayer::default();
    assert!(l.single_remap_entries.is_empty());
    assert!(l.pair_remap_entries.is_empty());
    assert_eq!(l.layer_name, "");
    assert_eq!(l.initial_state, 0);
    assert_eq!(KeyConfig::default(), KeyConfig::new());
}

#[test]
fn append_adds_the_items_at_the_end() {
    let mut out = vec![press(A)];
    append(&mut out, &vec![press(B), release(B)]);
    append(&mut out, &vec![]);
    assert_eq!(out, vec![press(A), press(B), release(B)]);
}

#[test]
fn well_formed_layers_are_recognised() {
    assert!(RemapLayer::default().is_well_formed());
    assert!(mixed_layer().is_well_formed());
    assert!(config_swap_a_b().is_well_formed());
    assert!(config_simple_remap().is_well_formed());
}

#[test]
fn layers_over_the_listed_keys_repeat_entries() {
    // Some keys are listed under two names, so the layers that hold an
    // entry for each listed key hold some entries twice over.
    let mut codes: Vec<u16> = kiri::evdev_keys::all_keys().map(|k| k.code()).collect();
    let listed = codes.len();
    codes.sort();
    codes.dedup();
    assert!(codes.len() < listed);
    assert!(!config_sands().is_well_formed());
    assert!(!config_wait_slow_shift_release().is_well_formed());
}

#[test]
fn two_single_entries_for_one_event_and_state_are_a_defect() {
    let mut l = mixed_layer();
    l.single_remap_entries.push(SingleRemapEntry {
        condition: 0,
        input: press(A),
        output: vec![],
        transition: 1,
    });
    assert!(!l.is_well_formed());
    // The same event in another state is none.
    l.single_remap_entries[1].condition = 1;
    assert!(l.is_well_formed());
}

#[test]
fn zero_threshold_is_a_defect() {
    let mut l = mixed_layer();
    l.pair_remap_entries[0].threshold = 0;
    assert!(!l.is_well_formed());
}

#[test]
fn pair_entry_of_one_event_twice_is_a_defect() {
    let mut l = mixed_layer();
    l.pair_remap_entries[0].input = [press(C), press(C)];
    assert!(!l.is_well_formed());
    l.pair_remap_entries[0].input = [press(C), release(C)];
    assert!(l.is_well_formed());
}
