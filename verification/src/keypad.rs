//! The host keyboard layout of the sixteen-key keypad.
use vstd::prelude::*;

verus! {

/// The keypad key that a host key code stands for, if any. The codes are those
/// of the host's keyboard layer, which for these keys are the characters on them:
///
/// ```text
///   1 2 3 4        1 2 3 C
///   q w e r   ->   4 5 6 D
///   a s d f        7 8 9 E
///   z x c v        A 0 B F
/// ```
pub open spec fn key_index(code: i32) -> Option<usize> {
    if code == 49 {
        Some(0x1)
    } else if code == 50 {
        Some(0x2)
    } else if code == 51 {
        Some(0x3)
    } else if code == 52 {
        Some(0xC)
    } else if code == 113 {
        Some(0x4)
    } else if code == 119 {
        Some(0x5)
    } else if code == 101 {
        Some(0x6)
    } else if code == 114 {
        Some(0xD)
    } else if code == 97 {
        Some(0x7)
    } else if code == 115 {
        Some(0x8)
    } else if code == 100 {
        Some(0x9)
    } else if code == 102 {
        Some(0xE)
    } else if code == 122 {
        Some(0xA)
    } else if code == 120 {
        Some(0x0)
    } else if code == 99 {
        Some(0xB)
    } else if code == 118 {
        Some(0xF)
    } else {
        None
    }
}

/// Maps a host key code to the keypad key it stands for.
pub fn map_key(key: i32) -> (index: Option<usize>)
    ensures
        index == key_index(key),
        index matches Some(k) ==> k < 16,
{
    match key {
        49 => Some(0x1),
        50 => Some(0x2),
        51 => Some(0x3),
        52 => Some(0xC),
        113 => Some(0x4),
        119 => Some(0x5),
        101 => Some(0x6),
        114 => Some(0xD),
        97 => Some(0x7),
        115 => Some(0x8),
        100 => Some(0x9),
        102 => Some(0xE),
        122 => Some(0xA),
        120 => Some(0x0),
        99 => Some(0xB),
        118 => Some(0xF),
        _ => None,
    }
}

/// Records that the host key `key` went down (`pressed`) or up. Keys that do not
/// belong to the keypad change nothing.
pub fn apply_key_event(keys: &mut [bool; 16], key: i32, pressed: bool)
    ensures
        final(keys)@ == match key_index(key) {
            Some(k) => old(keys)@.update(k as int, pressed),
            None => old(keys)@,
        },
{
    if let Some(i) = map_key(key) {
        keys[i] = pressed;
    }
}

} // verus!
