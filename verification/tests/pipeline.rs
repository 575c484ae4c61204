use keyremap::key::{Key, KeyInput};
use keyremap::layer::RemapLayer;
use keyremap::model::{LayerState, Pending};
use keyremap::pipeline::Pipeline;
use keyremap::rule::{PairRemapEntry, SingleRemapEntry};

fn press(code: u16) -> KeyInput {
    KeyInput::press(Key::new(code))
}

fn release(code: u16) -> KeyInput {
    KeyInput::release(Key::new(code))
}

fn single(condition: u32, input: KeyInput, output: Vec<KeyInput>, transition: u32) -> SingleRemapEntry {
    SingleRemapEntry { condition, input, output, transition }
}

fn pair(input: [KeyInput; 2], output: Vec<KeyInput>, threshold: u32) -> PairRemapEntry {
    PairRemapEntry { condition: 0, input, output, transition: 0, threshold }
}

fn layer(name: &'static str, singles: Vec<SingleRemapEntry>, pairs: Vec<PairRemapEntry>) -> RemapLayer {
    RemapLayer {
        pair_remap_entries: pairs,
        single_remap_entries: singles,
        layer_name: name,
        initial_state: 0,
    }
}

const A: u16 = 30;
const B: u16 = 48;
const D: u16 = 32;
const Q: u16 = 16;
const W: u16 = 17;
const X: u16 = 45;
const Y: u16 = 21;
const Z: u16 = 44;

#[test]
fn empty_pipeline_passes_everything_through() {
    let mut p = Pipeline::new();
    assert_eq!(p.len(), 0);
    assert_eq!(p.state_of(0), None);
    assert_eq!(p.feed(press(A), 0), vec![press(A)]);
    assert_eq!(p.advance(1_000), vec![]);
    assert_eq!(p.next_deadline(), None);
}

#[test]
fn pipeline_composition_order() {
    let mut p = Pipeline::from_layers(vec![
        layer("fan out", vec![single(0, press(X), vec![press(Y), press(Z)], 0)], vec![]),
        layer("rename", vec![single(0, press(Y), vec![press(W)], 0)], vec![]),
    ]);
    assert_eq!(p.len(), 2);
    assert_eq!(p.feed(press(X), 0), vec![press(W), press(Z)]);
}

#[test]
fn layers_run_in_the_order_they_were_given() {
    let first = layer("a to b", vec![single(0, press(A), vec![press(B)], 0)], vec![]);
    let second = layer("b to d", vec![single(0, press(B), vec![press(D)], 0)], vec![]);
    let mut p = Pipeline::from_layers(vec![first.clone(), second.clone()]);
    assert_eq!(p.feed(press(A), 0), vec![press(D)]);
    assert_eq!(p.feed(press(B), 1), vec![press(D)]);
    let mut q = Pipeline::from_layers(vec![second, first]);
    assert_eq!(q.feed(press(A), 0), vec![press(B)]);
    assert_eq!(q.feed(press(B), 1), vec![press(D)]);
}

#[test]
fn push_adds_a_layer_below_at_rest() {
    let mut p = Pipeline::new();
    p.push(layer("a to b", vec![single(0, press(A), vec![press(B)], 5)], vec![]));
    p.push(RemapLayer {
        pair_remap_entries: vec![],
        single_remap_entries: vec![single(3, press(B), vec![press(D)], 3)],
        layer_name: "b to d",
        initial_state: 3,
    });
    assert_eq!(p.len(), 2);
    assert_eq!(p.state_of(0).unwrap(), LayerState { state: 0, pending: None });
    assert_eq!(p.state_of(1).unwrap(), LayerState { state: 3, pending: None });
    assert_eq!(p.feed(press(A), 0), vec![press(D)]);
    assert_eq!(p.state_of(0).unwrap().state, 5);
}

#[test]
fn unmatched_event_leaves_the_pipeline_unchanged() {
    let mut p = Pipeline::from_layers(vec![
        layer("one", vec![single(0, press(X), vec![press(Y)], 1)], vec![]),
        layer("two", vec![], vec![pair([press(A), press(B)], vec![press(Q)], 50)]),
        layer("three", vec![single(0, release(X), vec![], 0)], vec![]),
    ]);
    assert_eq!(p.feed(press(D), 7), vec![press(D)]);
    for i in 0..3 {
        assert_eq!(p.state_of(i).unwrap(), LayerState { state: 0, pending: None });
    }
}

#[test]
fn fan_out_runs_each_event_through_the_lower_layers_in_turn() {
    // The second layer changes state on `Y`, and only then rewrites `Z`.
    let mut p = Pipeline::from_layers(vec![
        layer("fan out", vec![single(0, press(X), vec![press(Y), press(Z)], 0)], vec![]),
        layer(
            "stateful",
            vec![single(0, press(Y), vec![], 1), single(1, press(Z), vec![press(W)], 0)],
            vec![],
        ),
    ]);
    assert_eq!(p.feed(press(Z), 0), vec![press(Z)]);
    assert_eq!(p.feed(press(X), 1), vec![press(W)]);
    assert_eq!(p.state_of(1).unwrap().state, 0);
}

#[test]
fn fan_out_can_complete_a_chord_in_the_layer_below() {
    let mut p = Pipeline::from_layers(vec![
        layer("fan out", vec![single(0, press(X), vec![press(A), press(B)], 0)], vec![]),
        layer("chord", vec![], vec![pair([press(A), press(B)], vec![press(Q)], 50)]),
    ]);
    assert_eq!(p.feed(press(X), 10), vec![press(Q)]);
    assert_eq!(p.state_of(1).unwrap().pending, None);
}

#[test]
fn timed_out_event_runs_through_the_lower_layers() {
    let mut p = Pipeline::from_layers(vec![
        layer("chord", vec![], vec![pair([press(A), press(B)], vec![press(Q)], 50)]),
        layer("rename", vec![single(0, press(A), vec![press(D)], 0)], vec![]),
    ]);
    assert_eq!(p.feed(press(A), 100), vec![]);
    assert_eq!(p.next_deadline(), Some(150));
    assert_eq!(p.advance(150), vec![]);
    assert_eq!(p.advance(151), vec![press(D)]);
    assert_eq!(p.next_deadline(), None);
    assert_eq!(p.advance(152), vec![]);
}

#[test]
fn advance_keeps_the_order_in_which_events_arrived() {
    let mut p = Pipeline::from_layers(vec![
        layer("upper", vec![], vec![pair([press(A), press(B)], vec![press(Q)], 50)]),
        layer("lower", vec![], vec![pair([press(D), press(B)], vec![press(W)], 100)]),
    ]);
    assert_eq!(p.feed(press(D), 90), vec![]);
    assert_eq!(p.feed(press(A), 100), vec![]);
    assert_eq!(
        p.state_of(0).unwrap().pending,
        Some(Pending { event: press(A), since: 100, threshold: 50 })
    );
    assert_eq!(
        p.state_of(1).unwrap().pending,
        Some(Pending { event: press(D), since: 90, threshold: 100 })
    );
    assert_eq!(p.next_deadline(), Some(150));
    // Only the upper layer is overdue; its event finds the lower one
    // holding an older event, which leaves first.
    assert_eq!(p.advance(151), vec![press(D), press(A)]);
    assert_eq!(p.next_deadline(), None);
}

#[test]
fn advance_lets_go_in_every_layer_that_is_overdue() {
    let mut p = Pipeline::from_layers(vec![
        layer("upper", vec![], vec![pair([press(A), press(B)], vec![press(Q)], 50)]),
        layer("lower", vec![], vec![pair([press(D), press(B)], vec![press(W)], 20)]),
    ]);
    p.feed(press(D), 90);
    p.feed(press(A), 100);
    assert_eq!(p.next_deadline(), Some(110));
    assert_eq!(p.advance(111), vec![press(D)]);
    assert_eq!(p.next_deadline(), Some(150));
    assert_eq!(p.advance(200), vec![press(A)]);
}

#[test]
fn feed_alone_lets_go_where_the_event_passes() {
    let mut p = Pipeline::from_layers(vec![
        layer("upper", vec![], vec![pair([press(A), press(B)], vec![press(Q)], 50)]),
        layer("lower", vec![], vec![pair([press(D), press(B)], vec![press(W)], 20)]),
    ]);
    p.feed(press(D), 0);
    // `A` is held by the upper layer and never reaches the lower one.
    assert_eq!(p.feed(press(A), 500), vec![]);
    assert!(p.state_of(1).unwrap().pending.is_some());
    // `B` completes the upper chord; `Q` reaches the lower layer, whose
    // held event is long overdue.
    assert_eq!(p.feed(press(B), 510), vec![press(D), press(Q)]);
}
