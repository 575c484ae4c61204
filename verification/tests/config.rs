use keyremap::config::{
    config_sands, config_simple_remap, config_swap_a_b, config_wait_slow_shift_release,
    copy_of, just, one_state, others_of, push_for_states, push_pressed_in, push_renamed,
    released_before_of, sands_layer, single, stock_config, stock_config_for,
    wait_slow_shift_release_layer, StateSands, StateShiftRelease,
};
use keyremap::engine::{Action, Engine};
use keyremap::key::{Edge, Key, KeyInput, TimedEvent};
use keyremap::keys;
use keyremap::rule::{PairRemapEntry, SingleRemapEntry};
use kiri::evdev_keys;

fn press(code: u16) -> KeyInput {
    KeyInput::press(Key::new(code))
}

fn release(code: u16) -> KeyInput {
    KeyInput::release(Key::new(code))
}

fn at(event: KeyInput, arrival_time: u64) -> TimedEvent {
    TimedEvent { event, arrival_time }
}

fn entry(condition: u32, input: KeyInput, output: Vec<KeyInput>, transition: u32) -> SingleRemapEntry {
    SingleRemapEntry { condition, input, output, transition }
}

fn listed_keys() -> Vec<Key> {
    evdev_keys::all_keys().map(|k| Key::new(k.code())).collect()
}

#[test]
fn key_codes_are_those_of_the_input_layer() {
    assert_eq!(keys::CODE_BACKSPACE, evdev_keys::KEY_BACKSPACE.code());
    assert_eq!(keys::CODE_ENTER, evdev_keys::KEY_ENTER.code());
    assert_eq!(keys::CODE_LEFTCTRL, evdev_keys::KEY_LEFTCTRL.code());
    assert_eq!(keys::CODE_A, evdev_keys::KEY_A.code());
    assert_eq!(keys::CODE_K, evdev_keys::KEY_K.code());
    assert_eq!(keys::CODE_L, evdev_keys::KEY_L.code());
    assert_eq!(keys::CODE_LEFTSHIFT, evdev_keys::KEY_LEFTSHIFT.code());
    assert_eq!(keys::CODE_B, evdev_keys::KEY_B.code());
    assert_eq!(keys::CODE_SPACE, evdev_keys::KEY_SPACE.code());
    assert_eq!(keys::CODE_CAPSLOCK, evdev_keys::KEY_CAPSLOCK.code());
    assert_eq!(keys::CODE_RO, evdev_keys::KEY_RO.code());
    assert_eq!(keys::CODE_HENKAN, evdev_keys::KEY_HENKAN.code());
    assert_eq!(keys::CODE_MUHENKAN, evdev_keys::KEY_MUHENKAN.code());
    assert_eq!(keys::CODE_CALC, evdev_keys::KEY_CALC.code());
}

#[test]
fn state_tags_number_the_states() {
    assert_eq!(StateSands::Normal.id(), 0);
    assert_eq!(StateSands::Space.id(), 1);
    assert_eq!(StateSands::Shift.id(), 2);
    assert_eq!(StateShiftRelease::Normal.id(), 0);
    assert_eq!(StateShiftRelease::Shift.id(), 1);
    assert_eq!(StateShiftRelease::ContinuousShift.id(), 2);
}

#[test]
fn small_builders_build_what_they_say() {
    assert_eq!(just(press(1)), vec![press(1)]);
    assert_eq!(one_state(4), vec![4]);
    assert_eq!(copy_of(&vec![press(1), release(2)]), vec![press(1), release(2)]);
    assert_eq!(
        single(1, press(2), vec![release(3)], 4),
        entry(1, press(2), vec![release(3)], 4)
    );
}

#[test]
fn others_of_drops_the_two_keys_and_keeps_the_order() {
    let keys = vec![Key::new(5), Key::new(1), Key::new(7), Key::new(1), Key::new(9)];
    assert_eq!(
        others_of(&keys, Key::new(1), Key::new(9)),
        vec![Key::new(5), Key::new(7)]
    );
    assert_eq!(others_of(&keys, Key::new(2), Key::new(2)), keys);
    assert_eq!(others_of(&vec![], Key::new(2), Key::new(2)), vec![]);
}

#[test]
fn push_renamed_appends_one_entry_for_each_pair() {
    let mut out = vec![entry(9, press(9), vec![], 9)];
    push_renamed(
        &mut out,
        &vec![(Key::new(1), Key::new(2)), (Key::new(3), Key::new(4))],
        Edge::Release,
    );
    assert_eq!(
        out,
        vec![
            entry(9, press(9), vec![], 9),
            entry(0, release(1), vec![release(2)], 0),
            entry(0, release(3), vec![release(4)], 0),
        ]
    );
}

#[test]
fn push_for_states_appends_one_entry_for_each_state() {
    let mut out = Vec::new();
    push_for_states(&mut out, &vec![1, 2], press(5), &vec![press(6), release(6)], None);
    push_for_states(&mut out, &vec![3, 4], press(7), &vec![], Some(0));
    assert_eq!(
        out,
        vec![
            entry(1, press(5), vec![press(6), release(6)], 1),
            entry(2, press(5), vec![press(6), release(6)], 2),
            entry(3, press(7), vec![], 0),
            entry(4, press(7), vec![], 0),
        ]
    );
}

#[test]
fn push_pressed_in_appends_one_entry_for_each_key() {
    let mut out = Vec::new();
    push_pressed_in(&mut out, &vec![Key::new(3), Key::new(8)], 1, 2);
    assert_eq!(
        out,
        vec![entry(1, press(3), vec![press(3)], 2), entry(1, press(8), vec![press(8)], 2)]
    );
}

#[test]
fn released_before_of_gives_one_chord_for_each_key() {
    let out = released_before_of(&vec![Key::new(3), Key::new(8)], Key::new(42), 2, 0, 120);
    assert_eq!(
        out,
        vec![
            PairRemapEntry {
                condition: 2,
                input: [release(42), press(3)],
                output: vec![release(42), press(3)],
                transition: 0,
                threshold: 120,
            },
            PairRemapEntry {
                condition: 2,
                input: [release(42), press(8)],
                output: vec![release(42), press(8)],
                transition: 0,
                threshold: 120,
            },
        ]
    );
}

#[test]
fn swap_layer_is_declared_as_documented() {
    let l = config_swap_a_b();
    assert_eq!(l.layer_name, "a to b");
    assert_eq!(l.initial_state, 0);
    assert!(l.pair_remap_entries.is_empty());
    assert_eq!(
        l.single_remap_entries,
        vec![entry(0, press(30), vec![press(48)], 0), entry(0, press(48), vec![press(30)], 0)]
    );
    assert_eq!(l.single_remap_entries[0].input.key.code, evdev_keys::KEY_A.code());
    assert_eq!(l.single_remap_entries[1].input.key.code, evdev_keys::KEY_B.code());
}

#[test]
fn simple_remap_layer_is_declared_as_documented() {
    let l = config_simple_remap();
    assert_eq!(l.layer_name, "simple remap");
    assert_eq!(l.initial_state, 0);
    assert_eq!(
        l.single_remap_entries,
        vec![
            entry(0, press(58), vec![press(29)], 0),
            entry(0, press(92), vec![press(28)], 0),
            entry(0, press(94), vec![press(14)], 0),
            entry(0, release(58), vec![release(29)], 0),
            entry(0, release(92), vec![release(28)], 0),
            entry(0, release(94), vec![release(14)], 0),
        ]
    );
    assert_eq!(
        l.pair_remap_entries,
        vec![PairRemapEntry {
            condition: 0,
            input: [press(37), press(38)],
            output: vec![press(42), press(89), release(89), release(42)],
            transition: 0,
            threshold: 60,
        }]
    );
}

#[test]
fn sands_layer_is_declared_as_documented() {
    let l = sands_layer(&vec![Key::new(30), Key::new(57), Key::new(48)]);
    assert_eq!(l.layer_name, "SandS");
    assert_eq!(l.initial_state, 0);
    assert!(l.pair_remap_entries.is_empty());
    assert_eq!(
        l.single_remap_entries,
        vec![
            entry(0, press(57), vec![press(42)], 1),
            entry(1, press(57), vec![], 1),
            entry(2, press(57), vec![], 2),
            entry(1, release(57), vec![release(42), press(57), release(57)], 0),
            entry(2, release(57), vec![release(42)], 0),
            entry(1, press(30), vec![press(30)], 2),
            entry(1, press(48), vec![press(48)], 2),
        ]
    );
}

#[test]
fn sands_config_covers_the_listed_keys() {
    let l = config_sands();
    assert_eq!(l, sands_layer(&listed_keys()));
    let others = evdev_keys::all_keys().filter(|k| *k != evdev_keys::KEY_SPACE).count();
    assert!(others > 100);
    assert_eq!(l.single_remap_entries.len(), 5 + others);
    assert!(l.single_remap_entries.contains(&entry(1, press(30), vec![press(30)], 2)));
    assert!(!l.single_remap_entries.contains(&entry(1, press(57), vec![press(57)], 2)));
}

#[test]
fn wait_slow_shift_release_layer_is_declared_as_documented() {
    let l = wait_slow_shift_release_layer(&vec![
        Key::new(30),
        Key::new(42),
        Key::new(57),
        Key::new(48),
    ]);
    assert_eq!(l.layer_name, "wait slow shift release");
    assert_eq!(l.initial_state, 0);
    assert_eq!(
        l.single_remap_entries,
        vec![
            entry(1, press(30), vec![press(30)], 2),
            entry(1, press(57), vec![press(57)], 2),
            entry(1, press(48), vec![press(48)], 2),
            entry(0, press(42), vec![press(42)], 1),
            entry(1, release(42), vec![release(42)], 0),
            entry(2, release(42), vec![release(42)], 0),
        ]
    );
    assert_eq!(
        l.pair_remap_entries,
        released_before_of(&vec![Key::new(30), Key::new(48)], Key::new(42), 2, 0, 120)
    );
}

#[test]
fn wait_slow_shift_release_config_covers_the_listed_keys() {
    let l = config_wait_slow_shift_release();
    assert_eq!(l, wait_slow_shift_release_layer(&listed_keys()));
    let not_shift = evdev_keys::all_keys().filter(|k| *k != evdev_keys::KEY_LEFTSHIFT).count();
    let neither = evdev_keys::all_keys()
        .filter(|k| *k != evdev_keys::KEY_LEFTSHIFT && *k != evdev_keys::KEY_SPACE)
        .count();
    assert_eq!(l.single_remap_entries.len(), not_shift + 3);
    assert_eq!(l.pair_remap_entries.len(), neither);
    assert!(neither < not_shift);
}

#[test]
fn stock_config_stacks_the_five_layers() {
    let c = stock_config();
    let names: Vec<&str> = c.layers.iter().map(|l| l.layer_name).collect();
    assert_eq!(
        names,
        vec!["simple remap", "SandS", "wait slow shift release", "a to b", "a to b"]
    );
    assert_eq!(c.emergency_stop_key, Some(Key::new(evdev_keys::KEY_CALC.code())));
    assert_eq!(c, stock_config_for(&listed_keys()));
    assert_eq!(c.layers[0], config_simple_remap());
    assert_eq!(c.layers[3], config_swap_a_b());
    assert_eq!(c.layers[4], config_swap_a_b());
}

#[test]
fn stock_engine_renames_capslock() {
    let mut e = Engine::new(stock_config());
    assert_eq!(e.on_event(at(press(58), 0)), Action::Emit(vec![press(29)]));
    assert_eq!(e.on_event(at(release(58), 40)), Action::Emit(vec![release(29)]));
}

#[test]
fn stock_engine_leaves_a_and_b_alone() {
    let mut e = Engine::new(stock_config());
    assert_eq!(e.on_event(at(press(30), 0)), Action::Emit(vec![press(30)]));
    assert_eq!(e.on_event(at(release(30), 10)), Action::Emit(vec![release(30)]));
    assert_eq!(e.on_event(at(press(48), 20)), Action::Emit(vec![press(48)]));
}

#[test]
fn stock_engine_turns_a_tap_on_space_into_a_space() {
    let mut e = Engine::new(stock_config());
    assert_eq!(e.on_event(at(press(57), 0)), Action::Emit(vec![press(42)]));
    assert_eq!(
        e.on_event(at(release(57), 80)),
        Action::Emit(vec![release(42), press(57), release(57)])
    );
    assert_eq!(e.layer_state(1).unwrap().state, StateSands::Normal.id());
    assert_eq!(e.layer_state(2).unwrap().state, StateShiftRelease::Normal.id());
}

#[test]
fn stock_engine_shifts_keys_while_space_is_held() {
    let mut e = Engine::new(stock_config());
    assert_eq!(e.on_event(at(press(57), 0)), Action::Emit(vec![press(42)]));
    assert_eq!(e.on_event(at(press(30), 50)), Action::Emit(vec![press(30)]));
    assert_eq!(e.layer_state(1).unwrap().state, StateSands::Shift.id());
    assert_eq!(e.layer_state(2).unwrap().state, StateShiftRelease::ContinuousShift.id());
    assert_eq!(e.on_event(at(release(30), 90)), Action::Emit(vec![release(30)]));
    assert_eq!(e.on_event(at(release(57), 120)), Action::Emit(vec![release(42)]));
    assert_eq!(e.layer_state(1).unwrap().state, StateSands::Normal.id());
    assert_eq!(e.layer_state(2).unwrap().state, StateShiftRelease::Normal.id());
}

#[test]
fn stock_engine_turns_k_and_l_together_into_a_shifted_ro() {
    let mut e = Engine::new(stock_config());
    assert_eq!(e.on_event(at(press(37), 0)), Action::Emit(vec![]));
    assert_eq!(e.next_deadline(), Some(60));
    assert_eq!(
        e.on_event(at(press(38), 60)),
        Action::Emit(vec![press(42), press(89), release(89), release(42)])
    );
}

#[test]
fn stock_engine_lets_a_lone_k_go_after_its_time() {
    let mut e = Engine::new(stock_config());
    assert_eq!(e.on_event(at(press(37), 1_000)), Action::Emit(vec![]));
    assert_eq!(e.on_timer(1_060), Action::Emit(vec![]));
    assert_eq!(e.on_timer(1_061), Action::Emit(vec![press(37)]));
    assert_eq!(e.on_event(at(release(37), 1_100)), Action::Emit(vec![release(37)]));
}

#[test]
fn stock_engine_stops_on_calc() {
    let mut e = Engine::new(stock_config());
    assert_eq!(e.on_event(at(press(37), 0)), Action::Emit(vec![]));
    assert_eq!(e.on_event(at(press(140), 10)), Action::Stop);
    assert_eq!(e.on_timer(100), Action::Stop);
    assert!(e.is_stopped());
}
