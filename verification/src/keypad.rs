use vstd::prelude::*;

verus! {

/// The keys the interpreter tells apart: the sixteen keypad keys, labelled
/// `0`-`9` and `A`-`F` on the keyboard, a key press that is none of them
/// (`Other`), and the code that stands for a keypad value beyond F
/// (`Unmapped`), which no key press produces.
#[derive(Clone, Copy, Debug, PartialEq, Eq, Structural)]
pub enum KeyCode {
    Num0,
    Num1,
    Num2,
    Num3,
    Num4,
    Num5,
    Num6,
    Num7,
    Num8,
    Num9,
    A,
    B,
    C,
    D,
    E,
    F,
    Other,
    Unmapped,
}

/// The keypad value (0 to F) of a key, if it is a keypad key.
pub open spec fn keypad_value(k: KeyCode) -> Option<u8> {
    match k {
        KeyCode::Num0 => Some(0u8),
        KeyCode::Num1 => Some(1u8),
        KeyCode::Num2 => Some(2u8),
        KeyCode::Num3 => Some(3u8),
        KeyCode::Num4 => Some(4u8),
        KeyCode::Num5 => Some(5u8),
        KeyCode::Num6 => Some(6u8),
        KeyCode::Num7 => Some(7u8),
        KeyCode::Num8 => Some(8u8),
        KeyCode::Num9 => Some(9u8),
        KeyCode::A => Some(10u8),
        KeyCode::B => Some(11u8),
        KeyCode::C => Some(12u8),
        KeyCode::D => Some(13u8),
        KeyCode::E => Some(14u8),
        KeyCode::F => Some(15u8),
        KeyCode::Other => None,
        KeyCode::Unmapped => None,
    }
}

/// The key for keypad value `key`: the keypad key of that value when
/// `key` < 16, and `Unmapped` otherwise.
pub fn lookup_keycode(key: u8) -> (k: KeyCode)
    ensures
        key < 16 ==> keypad_value(k) == Some(key),
        key >= 16 ==> k == KeyCode::Unmapped,
{
    match key {
        0 => KeyCode::Num0,
        1 => KeyCode::Num1,
        2 => KeyCode::Num2,
        3 => KeyCode::Num3,
        4 => KeyCode::Num4,
        5 => KeyCode::Num5,
        6 => KeyCode::Num6,
        7 => KeyCode::Num7,
        8 => KeyCode::Num8,
        9 => KeyCode::Num9,
        10 => KeyCode::A,
        11 => KeyCode::B,
        12 => KeyCode::C,
        13 => KeyCode::D,
        14 => KeyCode::E,
        15 => KeyCode::F,
        _ => KeyCode::Unmapped,
    }
}

/// Whether a key press of `pressed` counts as keypad value `key` being
/// pressed.
pub fn key_matches(pressed: KeyCode, key: u8) -> (m: bool)
    ensures
        m == if key < 16 { keypad_value(pressed) == Some(key) } else { pressed == KeyCode::Unmapped },
{
    pressed == lookup_keycode(key)
}

/// The keypad keys carry the values their labels read: `0`-`9` are 0 to 9,
/// `A`-`F` are 10 to 15, and no other key has a value.
pub proof fn law_keypad_labels()
    ensures
        keypad_value(KeyCode::Num0) == Some(0u8),
        keypad_value(KeyCode::Num1) == Some(1u8),
        keypad_value(KeyCode::Num2) == Some(2u8),
        keypad_value(KeyCode::Num3) == Some(3u8),
        keypad_value(KeyCode::Num4) == Some(4u8),
        keypad_value(KeyCode::Num5) == Some(5u8),
        keypad_value(KeyCode::Num6) == Some(6u8),
        keypad_value(KeyCode::Num7) == Some(7u8),
        keypad_value(KeyCode::Num8) == Some(8u8),
        keypad_value(KeyCode::Num9) == Some(9u8),
        keypad_value(KeyCode::A) == Some(10u8),
        keypad_value(KeyCode::B) == Some(11u8),
        keypad_value(KeyCode::C) == Some(12u8),
        keypad_value(KeyCode::D) == Some(13u8),
        keypad_value(KeyCode::E) == Some(14u8),
        keypad_value(KeyCode::F) == Some(15u8),
        keypad_value(KeyCode::Other) is None,
        keypad_value(KeyCode::Unmapped) is None,
{
}

} // verus!
