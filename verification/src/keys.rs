//! The keys that the stock layers name. They are taken from `evdev_keys`, so
//! that a layer names a key as the input device reports it; the event codes
//! below are what the contracts say of them.

use vstd::prelude::*;
use crate::key::Key;

verus! {

/// The event code of `KEY_BACKSPACE`.
pub const CODE_BACKSPACE: u16 = 14;

/// The event code of `KEY_ENTER`.
pub const CODE_ENTER: u16 = 28;

/// The event code of `KEY_LEFTCTRL`.
pub const CODE_LEFTCTRL: u16 = 29;

/// The event code of `KEY_A`.
pub const CODE_A: u16 = 30;

/// The event code of `KEY_K`.
pub const CODE_K: u16 = 37;

/// The event code of `KEY_L`.
pub const CODE_L: u16 = 38;

/// The event code of `KEY_LEFTSHIFT`.
pub const CODE_LEFTSHIFT: u16 = 42;

/// The event code of `KEY_B`.
pub const CODE_B: u16 = 48;

/// The event code of `KEY_SPACE`.
pub const CODE_SPACE: u16 = 57;

/// The event code of `KEY_CAPSLOCK`.
pub const CODE_CAPSLOCK: u16 = 58;

/// The event code of `KEY_RO`.
pub const CODE_RO: u16 = 89;

/// The event code of `KEY_HENKAN`.
pub const CODE_HENKAN: u16 = 92;

/// The event code of `KEY_MUHENKAN`.
pub const CODE_MUHENKAN: u16 = 94;

/// The event code of `KEY_CALC`.
pub const CODE_CALC: u16 = 140;

/// `evdev_keys::KEY_BACKSPACE`. Its event code is taken to be 14, as `evdev`
/// declares it.
#[verifier::external_body]
pub(crate) fn key_backspace() -> (k: Key)
    ensures
        k.code == CODE_BACKSPACE,
{
    Key { code: kiri::evdev_keys::KEY_BACKSPACE.code() }
}

/// `evdev_keys::KEY_ENTER`. Its event code is taken to be 28, as `evdev`
/// declares it.
#[verifier::external_body]
pub(crate) fn key_enter() -> (k: Key)
    ensures
        k.code == CODE_ENTER,
{
    Key { code: kiri::evdev_keys::KEY_ENTER.code() }
}

/// `evdev_keys::KEY_LEFTCTRL`. Its event code is taken to be 29, as `evdev`
/// declares it.
#[verifier::external_body]
pub(crate) fn key_leftctrl() -> (k: Key)
    ensures
        k.code == CODE_LEFTCTRL,
{
    Key { code: kiri::evdev_keys::KEY_LEFTCTRL.code() }
}

/// `evdev_keys::KEY_A`. Its event code is taken to be 30, as `evdev`
/// declares it.
#[verifier::external_body]
pub(crate) fn key_a() -> (k: Key)
    ensures
        k.code == CODE_A,
{
    Key { code: kiri::evdev_keys::KEY_A.code() }
}

/// `evdev_keys::KEY_K`. Its event code is taken to be 37, as `evdev`
/// declares it.
#[verifier::external_body]
pub(crate) fn key_k() -> (k: Key)
    ensures
        k.code == CODE_K,
{
    Key { code: kiri::evdev_keys::KEY_K.code() }
}

/// `evdev_keys::KEY_L`. Its event code is taken to be 38, as `evdev`
/// declares it.
#[verifier::external_body]
pub(crate) fn key_l() -> (k: Key)
    ensures
        k.code == CODE_L,
{
    Key { code: kiri::evdev_keys::KEY_L.code() }
}

/// `evdev_keys::KEY_LEFTSHIFT`. Its event code is taken to be 42, as `evdev`
/// declares it.
#[verifier::external_body]
pub(crate) fn key_leftshift() -> (k: Key)
    ensures
        k.code == CODE_LEFTSHIFT,
{
    Key { code: kiri::evdev_keys::KEY_LEFTSHIFT.code() }
}

/// `evdev_keys::KEY_B`. Its event code is taken to be 48, as `evdev`
/// declares it.
#[verifier::external_body]
pub(crate) fn key_b() -> (k: Key)
    ensures
        k.code == CODE_B,
{
    Key { code: kiri::evdev_keys::KEY_B.code() }
}

/// `evdev_keys::KEY_SPACE`. Its event code is taken to be 57, as `evdev`
/// declares it.
#[verifier::external_body]
pub(crate) fn key_space() -> (k: Key)
    ensures
        k.code == CODE_SPACE,
{
    Key { code: kiri::evdev_keys::KEY_SPACE.code() }
}

/// `evdev_keys::KEY_CAPSLOCK`. Its event code is taken to be 58, as `evdev`
/// declares it.
#[verifier::external_body]
pub(crate) fn key_capslock() -> (k: Key)
    ensures
        k.code == CODE_CAPSLOCK,
{
    Key { code: kiri::evdev_keys::KEY_CAPSLOCK.code() }
}

/// `evdev_keys::KEY_RO`. Its event code is taken to be 89, as `evdev`
/// declares it.
#[verifier::external_body]
pub(crate) fn key_ro() -> (k: Key)
    ensures
        k.code == CODE_RO,
{
    Key { code: kiri::evdev_keys::KEY_RO.code() }
}

/// `evdev_keys::KEY_HENKAN`. Its event code is taken to be 92, as `evdev`
/// declares it.
#[verifier::external_body]
pub(crate) fn key_henkan() -> (k: Key)
    ensures
        k.code == CODE_HENKAN,
{
    Key { code: kiri::evdev_keys::KEY_HENKAN.code() }
}

/// `evdev_keys::KEY_MUHENKAN`. Its event code is taken to be 94, as `evdev`
/// declares it.
#[verifier::external_body]
pub(crate) fn key_muhenkan() -> (k: Key)
    ensures
        k.code == CODE_MUHENKAN,
{
    Key { code: kiri::evdev_keys::KEY_MUHENKAN.code() }
}

/// `evdev_keys::KEY_CALC`. Its event code is taken to be 140, as `evdev`
/// declares it.
#[verifier::external_body]
pub(crate) fn key_calc() -> (k: Key)
    ensures
        k.code == CODE_CALC,
{
    Key { code: kiri::evdev_keys::KEY_CALC.code() }
}

/// `evdev_keys::all_keys`: the keys that crate lists, in the order in which
/// it lists them, each by its event code. Nothing is claimed of which keys
/// those are.
#[verifier::external_body]
pub(crate) fn all_keys() -> (keys: Vec<Key>) {
    let mut keys = Vec::new();
    for k in kiri::evdev_keys::all_keys() {
        keys.push(Key { code: k.code() });
    }
    keys
}

} // verus!
