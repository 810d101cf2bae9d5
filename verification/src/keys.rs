//! # Keyboard input
//!
//! The characters that the keys of a US keyboard type, by their evdev key
//! codes; the names of those keys, and what a key press gives a program.
use vstd::prelude::*;

verus! {

/// The character that the key with evdev code `code` types, with or without
/// shift: digits and their shifted symbols, the punctuation keys, the
/// letters (upper case with shift) and the space bar; `None` for any other
/// key.
pub open spec fn key_char(code: u16, shift: bool) -> Option<char> {
    match code {
        2 => Some(if shift { '!' } else { '1' }),
        3 => Some(if shift { '@' } else { '2' }),
        4 => Some(if shift { '#' } else { '3' }),
        5 => Some(if shift { '$' } else { '4' }),
        6 => Some(if shift { '%' } else { '5' }),
        7 => Some(if shift { '^' } else { '6' }),
        8 => Some(if shift { '&' } else { '7' }),
        9 => Some(if shift { '*' } else { '8' }),
        10 => Some(if shift { '(' } else { '9' }),
        11 => Some(if shift { ')' } else { '0' }),
        41 => Some(if shift { '~' } else { '`' }),
        43 => Some(if shift { '|' } else { '\\' }),
        12 => Some(if shift { '_' } else { '-' }),
        13 => Some(if shift { '+' } else { '=' }),
        26 => Some(if shift { '{' } else { '[' }),
        27 => Some(if shift { '}' } else { ']' }),
        39 => Some(if shift { ':' } else { ';' }),
        40 => Some(if shift { '"' } else { '\'' }),
        51 => Some(if shift { '<' } else { ',' }),
        52 => Some(if shift { '>' } else { '.' }),
        53 => Some(if shift { '?' } else { '/' }),
        16 => Some(if shift { 'Q' } else { 'q' }),
        17 => Some(if shift { 'W' } else { 'w' }),
        18 => Some(if shift { 'E' } else { 'e' }),
        19 => Some(if shift { 'R' } else { 'r' }),
        20 => Some(if shift { 'T' } else { 't' }),
        21 => Some(if shift { 'Y' } else { 'y' }),
        22 => Some(if shift { 'U' } else { 'u' }),
        23 => Some(if shift { 'I' } else { 'i' }),
        24 => Some(if shift { 'O' } else { 'o' }),
        25 => Some(if shift { 'P' } else { 'p' }),
        30 => Some(if shift { 'A' } else { 'a' }),
        31 => Some(if shift { 'S' } else { 's' }),
        32 => Some(if shift { 'D' } else { 'd' }),
        33 => Some(if shift { 'F' } else { 'f' }),
        34 => Some(if shift { 'G' } else { 'g' }),
        35 => Some(if shift { 'H' } else { 'h' }),
        36 => Some(if shift { 'J' } else { 'j' }),
        37 => Some(if shift { 'K' } else { 'k' }),
        38 => Some(if shift { 'L' } else { 'l' }),
        44 => Some(if shift { 'Z' } else { 'z' }),
        45 => Some(if shift { 'X' } else { 'x' }),
        46 => Some(if shift { 'C' } else { 'c' }),
        47 => Some(if shift { 'V' } else { 'v' }),
        48 => Some(if shift { 'B' } else { 'b' }),
        49 => Some(if shift { 'N' } else { 'n' }),
        50 => Some(if shift { 'M' } else { 'm' }),
        57 => Some(' '),
        _ => None,
    }
}

/// The character that the key with evdev code `code` types (see
/// [`key_char`]).
pub fn evdev_keycode_to_char(code: u16, shift: bool) -> (c: Option<char>)
    ensures
        c == key_char(code, shift),
{
    match code {
        2 => Some(if shift { '!' } else { '1' }),
        3 => Some(if shift { '@' } else { '2' }),
        4 => Some(if shift { '#' } else { '3' }),
        5 => Some(if shift { '$' } else { '4' }),
        6 => Some(if shift { '%' } else { '5' }),
        7 => Some(if shift { '^' } else { '6' }),
        8 => Some(if shift { '&' } else { '7' }),
        9 => Some(if shift { '*' } else { '8' }),
        10 => Some(if shift { '(' } else { '9' }),
        11 => Some(if shift { ')' } else { '0' }),
        41 => Some(if shift { '~' } else { '`' }),
        43 => Some(if shift { '|' } else { '\\' }),
        12 => Some(if shift { '_' } else { '-' }),
        13 => Some(if shift { '+' } else { '=' }),
        26 => Some(if shift { '{' } else { '[' }),
        27 => Some(if shift { '}' } else { ']' }),
        39 => Some(if shift { ':' } else { ';' }),
        40 => Some(if shift { '"' } else { '\'' }),
        51 => Some(if shift { '<' } else { ',' }),
        52 => Some(if shift { '>' } else { '.' }),
        53 => Some(if shift { '?' } else { '/' }),
        16 => Some(if shift { 'Q' } else { 'q' }),
        17 => Some(if shift { 'W' } else { 'w' }),
        18 => Some(if shift { 'E' } else { 'e' }),
        19 => Some(if shift { 'R' } else { 'r' }),
        20 => Some(if shift { 'T' } else { 't' }),
        21 => Some(if shift { 'Y' } else { 'y' }),
        22 => Some(if shift { 'U' } else { 'u' }),
        23 => Some(if shift { 'I' } else { 'i' }),
        24 => Some(if shift { 'O' } else { 'o' }),
        25 => Some(if shift { 'P' } else { 'p' }),
        30 => Some(if shift { 'A' } else { 'a' }),
        31 => Some(if shift { 'S' } else { 's' }),
        32 => Some(if shift { 'D' } else { 'd' }),
        33 => Some(if shift { 'F' } else { 'f' }),
        34 => Some(if shift { 'G' } else { 'g' }),
        35 => Some(if shift { 'H' } else { 'h' }),
        36 => Some(if shift { 'J' } else { 'j' }),
        37 => Some(if shift { 'K' } else { 'k' }),
        38 => Some(if shift { 'L' } else { 'l' }),
        44 => Some(if shift { 'Z' } else { 'z' }),
        45 => Some(if shift { 'X' } else { 'x' }),
        46 => Some(if shift { 'C' } else { 'c' }),
        47 => Some(if shift { 'V' } else { 'v' }),
        48 => Some(if shift { 'B' } else { 'b' }),
        49 => Some(if shift { 'N' } else { 'n' }),
        50 => Some(if shift { 'M' } else { 'm' }),
        57 => Some(' '),
        _ => None,
    }
}

/// The digit row of a US keyboard: without shift, the keys `1` to `9`
/// (evdev codes 2 to 10) type their digits and the key `0` (code 11) types
/// `0`; with shift, no key at all types a digit.
pub proof fn lemma_digit_row(code: u16)
    ensures
        2 <= code <= 10 ==> (key_char(code, false) matches Some(c) && c as u32 == code + 47),
        code == 11 ==> key_char(code, false) == Some('0'),
        key_char(code, true) matches Some(c) ==> !(0x30 <= c as u32 <= 0x39),
{
}

/// Shift changes what a key types, not whether it types: a key types a
/// character with shift exactly when it types one without; a key that types
/// a lower-case letter types the same letter in upper case with shift; and
/// without shift no key types an upper-case letter.
pub proof fn lemma_shift_keys(code: u16)
    ensures
        key_char(code, true) is Some <==> key_char(code, false) is Some,
        key_char(code, false) matches Some(c) ==> (0x61 <= c as u32 <= 0x7A ==> (key_char(
            code,
            true,
        ) matches Some(u) && u as u32 + 32 == c as u32)),
        key_char(code, false) matches Some(c) ==> !(0x41 <= c as u32 <= 0x5A),
{
}

/// A key of the user interface's keyboard, by name: the named keys, the
/// digit and letter keys and the punctuation keys that the shell and the
/// emulator tell apart; `Other` stands for every other key.
#[derive(Clone, Copy, Debug, PartialEq, Eq, Structural)]
pub enum KeyName {
    Space,
    Tab,
    Enter,
    Backspace,
    Delete,
    ArrowUp,
    ArrowDown,
    ArrowLeft,
    ArrowRight,
    PageUp,
    PageDown,
    Num0,
    Num1,
    Num2,
    Num3,
    Num4,
    Num5,
    Num6,
    Num7,
    Num8,
    Num9,
    A,
    B,
    C,
    D,
    E,
    F,
    G,
    H,
    I,
    J,
    K,
    L,
    M,
    N,
    O,
    P,
    Q,
    R,
    S,
    T,
    U,
    V,
    W,
    X,
    Y,
    Z,
    Escape,
    Backtick,
    Backslash,
    Minus,
    Equals,
    OpenBracket,
    CloseBracket,
    Semicolon,
    Quote,
    Comma,
    Period,
    Slash,
    Other,
}

/// A key press as a program receives it: a named key, or the character
/// that the key types.
#[derive(Clone, Copy, Debug, PartialEq, Eq, Structural)]
pub enum Key {
    Space,
    Tab,
    Enter,
    Backspace,
    Delete,
    ArrowUp,
    ArrowDown,
    ArrowLeft,
    ArrowRight,
    PageUp,
    PageDown,
    Char(char),
}

/// What a key press of `key` gives a program, with or without shift: a
/// named key stays one; a digit, letter, `-` or `=` key gives the character
/// it types (shifted symbols and upper-case letters with shift); any other
/// key gives nothing.
pub open spec fn key_of(key: KeyName, shift: bool) -> Option<Key> {
    match key {
        KeyName::Space => Some(Key::Space),
        KeyName::Tab => Some(Key::Tab),
        KeyName::Enter => Some(Key::Enter),
        KeyName::Backspace => Some(Key::Backspace),
        KeyName::Delete => Some(Key::Delete),
        KeyName::ArrowUp => Some(Key::ArrowUp),
        KeyName::ArrowDown => Some(Key::ArrowDown),
        KeyName::ArrowLeft => Some(Key::ArrowLeft),
        KeyName::ArrowRight => Some(Key::ArrowRight),
        KeyName::PageUp => Some(Key::PageUp),
        KeyName::PageDown => Some(Key::PageDown),
        KeyName::Num0 => Some(Key::Char(if shift { ')' } else { '0' })),
        KeyName::Num1 => Some(Key::Char(if shift { '!' } else { '1' })),
        KeyName::Num2 => Some(Key::Char(if shift { '@' } else { '2' })),
        KeyName::Num3 => Some(Key::Char(if shift { '#' } else { '3' })),
        KeyName::Num4 => Some(Key::Char(if shift { '$' } else { '4' })),
        KeyName::Num5 => Some(Key::Char(if shift { '%' } else { '5' })),
        KeyName::Num6 => Some(Key::Char(if shift { '^' } else { '6' })),
        KeyName::Num7 => Some(Key::Char(if shift { '&' } else { '7' })),
        KeyName::Num8 => Some(Key::Char(if shift { '*' } else { '8' })),
        KeyName::Num9 => Some(Key::Char(if shift { '(' } else { '9' })),
        KeyName::Minus => Some(Key::Char(if shift { '_' } else { '-' })),
        KeyName::Equals => Some(Key::Char(if shift { '+' } else { '=' })),
        KeyName::A => Some(Key::Char(if shift { 'A' } else { 'a' })),
        KeyName::B => Some(Key::Char(if shift { 'B' } else { 'b' })),
        KeyName::C => Some(Key::Char(if shift { 'C' } else { 'c' })),
        KeyName::D => Some(Key::Char(if shift { 'D' } else { 'd' })),
        KeyName::E => Some(Key::Char(if shift { 'E' } else { 'e' })),
        KeyName::F => Some(Key::Char(if shift { 'F' } else { 'f' })),
        KeyName::G => Some(Key::Char(if shift { 'G' } else { 'g' })),
        KeyName::H => Some(Key::Char(if shift { 'H' } else { 'h' })),
        KeyName::I => Some(Key::Char(if shift { 'I' } else { 'i' })),
        KeyName::J => Some(Key::Char(if shift { 'J' } else { 'j' })),
        KeyName::K => Some(Key::Char(if shift { 'K' } else { 'k' })),
        KeyName::L => Some(Key::Char(if shift { 'L' } else { 'l' })),
        KeyName::M => Some(Key::Char(if shift { 'M' } else { 'm' })),
        KeyName::N => Some(Key::Char(if shift { 'N' } else { 'n' })),
        KeyName::O => Some(Key::Char(if shift { 'O' } else { 'o' })),
        KeyName::P => Some(Key::Char(if shift { 'P' } else { 'p' })),
        KeyName::Q => Some(Key::Char(if shift { 'Q' } else { 'q' })),
        KeyName::R => Some(Key::Char(if shift { 'R' } else { 'r' })),
        KeyName::S => Some(Key::Char(if shift { 'S' } else { 's' })),
        KeyName::T => Some(Key::Char(if shift { 'T' } else { 't' })),
        KeyName::U => Some(Key::Char(if shift { 'U' } else { 'u' })),
        KeyName::V => Some(Key::Char(if shift { 'V' } else { 'v' })),
        KeyName::W => Some(Key::Char(if shift { 'W' } else { 'w' })),
        KeyName::X => Some(Key::Char(if shift { 'X' } else { 'x' })),
        KeyName::Y => Some(Key::Char(if shift { 'Y' } else { 'y' })),
        KeyName::Z => Some(Key::Char(if shift { 'Z' } else { 'z' })),
        _ => None,
    }
}

/// What a key press of `key` gives a program, with or without shift (see
/// [`key_of`]).
pub fn egui_key_to_key(key: KeyName, shift: bool) -> (r: Option<Key>)
    ensures
        r == key_of(key, shift),
{
    match key {
        KeyName::Space => Some(Key::Space),
        KeyName::Tab => Some(Key::Tab),
        KeyName::Enter => Some(Key::Enter),
        KeyName::Backspace => Some(Key::Backspace),
        KeyName::Delete => Some(Key::Delete),
        KeyName::ArrowUp => Some(Key::ArrowUp),
        KeyName::ArrowDown => Some(Key::ArrowDown),
        KeyName::ArrowLeft => Some(Key::ArrowLeft),
        KeyName::ArrowRight => Some(Key::ArrowRight),
        KeyName::PageUp => Some(Key::PageUp),
        KeyName::PageDown => Some(Key::PageDown),
        KeyName::Num0 => Some(Key::Char(if shift { ')' } else { '0' })),
        KeyName::Num1 => Some(Key::Char(if shift { '!' } else { '1' })),
        KeyName::Num2 => Some(Key::Char(if shift { '@' } else { '2' })),
        KeyName::Num3 => Some(Key::Char(if shift { '#' } else { '3' })),
        KeyName::Num4 => Some(Key::Char(if shift { '$' } else { '4' })),
        KeyName::Num5 => Some(Key::Char(if shift { '%' } else { '5' })),
        KeyName::Num6 => Some(Key::Char(if shift { '^' } else { '6' })),
        KeyName::Num7 => Some(Key::Char(if shift { '&' } else { '7' })),
        KeyName::Num8 => Some(Key::Char(if shift { '*' } else { '8' })),
        KeyName::Num9 => Some(Key::Char(if shift { '(' } else { '9' })),
        KeyName::Minus => Some(Key::Char(if shift { '_' } else { '-' })),
        KeyName::Equals => Some(Key::Char(if shift { '+' } else { '=' })),
        KeyName::A => Some(Key::Char(if shift { 'A' } else { 'a' })),
        KeyName::B => Some(Key::Char(if shift { 'B' } else { 'b' })),
        KeyName::C => Some(Key::Char(if shift { 'C' } else { 'c' })),
        KeyName::D => Some(Key::Char(if shift { 'D' } else { 'd' })),
        KeyName::E => Some(Key::Char(if shift { 'E' } else { 'e' })),
        KeyName::F => Some(Key::Char(if shift { 'F' } else { 'f' })),
        KeyName::G => Some(Key::Char(if shift { 'G' } else { 'g' })),
        KeyName::H => Some(Key::Char(if shift { 'H' } else { 'h' })),
        KeyName::I => Some(Key::Char(if shift { 'I' } else { 'i' })),
        KeyName::J => Some(Key::Char(if shift { 'J' } else { 'j' })),
        KeyName::K => Some(Key::Char(if shift { 'K' } else { 'k' })),
        KeyName::L => Some(Key::Char(if shift { 'L' } else { 'l' })),
        KeyName::M => Some(Key::Char(if shift { 'M' } else { 'm' })),
        KeyName::N => Some(Key::Char(if shift { 'N' } else { 'n' })),
        KeyName::O => Some(Key::Char(if shift { 'O' } else { 'o' })),
        KeyName::P => Some(Key::Char(if shift { 'P' } else { 'p' })),
        KeyName::Q => Some(Key::Char(if shift { 'Q' } else { 'q' })),
        KeyName::R => Some(Key::Char(if shift { 'R' } else { 'r' })),
        KeyName::S => Some(Key::Char(if shift { 'S' } else { 's' })),
        KeyName::T => Some(Key::Char(if shift { 'T' } else { 't' })),
        KeyName::U => Some(Key::Char(if shift { 'U' } else { 'u' })),
        KeyName::V => Some(Key::Char(if shift { 'V' } else { 'v' })),
        KeyName::W => Some(Key::Char(if shift { 'W' } else { 'w' })),
        KeyName::X => Some(Key::Char(if shift { 'X' } else { 'x' })),
        KeyName::Y => Some(Key::Char(if shift { 'Y' } else { 'y' })),
        KeyName::Z => Some(Key::Char(if shift { 'Z' } else { 'z' })),
        _ => None,
    }
}

/// The key name of the key with evdev code `code`: the arrow, page, space,
/// tab, enter, backspace, delete and escape keys, the digits, the letters and
/// the punctuation keys; `None` for any other key.
pub open spec fn key_name_of(code: u16) -> Option<KeyName> {
    match code {
        105 => Some(KeyName::ArrowLeft),
        106 => Some(KeyName::ArrowRight),
        103 => Some(KeyName::ArrowUp),
        108 => Some(KeyName::ArrowDown),
        104 => Some(KeyName::PageUp),
        109 => Some(KeyName::PageDown),
        57 => Some(KeyName::Space),
        15 => Some(KeyName::Tab),
        28 => Some(KeyName::Enter),
        14 => Some(KeyName::Backspace),
        111 => Some(KeyName::Delete),
        1 => Some(KeyName::Escape),
        11 => Some(KeyName::Num0),
        2 => Some(KeyName::Num1),
        3 => Some(KeyName::Num2),
        4 => Some(KeyName::Num3),
        5 => Some(KeyName::Num4),
        6 => Some(KeyName::Num5),
        7 => Some(KeyName::Num6),
        8 => Some(KeyName::Num7),
        9 => Some(KeyName::Num8),
        10 => Some(KeyName::Num9),
        30 => Some(KeyName::A),
        48 => Some(KeyName::B),
        46 => Some(KeyName::C),
        32 => Some(KeyName::D),
        18 => Some(KeyName::E),
        33 => Some(KeyName::F),
        34 => Some(KeyName::G),
        35 => Some(KeyName::H),
        23 => Some(KeyName::I),
        36 => Some(KeyName::J),
        37 => Some(KeyName::K),
        38 => Some(KeyName::L),
        50 => Some(KeyName::M),
        49 => Some(KeyName::N),
        24 => Some(KeyName::O),
        25 => Some(KeyName::P),
        16 => Some(KeyName::Q),
        19 => Some(KeyName::R),
        31 => Some(KeyName::S),
        20 => Some(KeyName::T),
        22 => Some(KeyName::U),
        47 => Some(KeyName::V),
        17 => Some(KeyName::W),
        45 => Some(KeyName::X),
        21 => Some(KeyName::Y),
        44 => Some(KeyName::Z),
        41 => Some(KeyName::Backtick),
        43 => Some(KeyName::Backslash),
        12 => Some(KeyName::Minus),
        13 => Some(KeyName::Equals),
        26 => Some(KeyName::OpenBracket),
        27 => Some(KeyName::CloseBracket),
        39 => Some(KeyName::Semicolon),
        40 => Some(KeyName::Quote),
        51 => Some(KeyName::Comma),
        52 => Some(KeyName::Period),
        53 => Some(KeyName::Slash),
        _ => None,
    }
}

/// The two ways from a key code to a character agree: where the key name of
/// a code gives a program a character, it is the character that the code
/// types, with shift and without; and the space bar, named or typed, is a
/// space.
pub proof fn lemma_key_paths_agree(code: u16, shift: bool)
    ensures
        key_name_of(code) matches Some(name) ==> (key_of(name, shift) matches Some(Key::Char(c))
            ==> key_char(code, shift) == Some(c)),
        key_name_of(code) == Some(KeyName::Space) <==> key_char(code, shift) == Some(' '),
{
}

/// The key name of the key with evdev code `code` (see [`key_name_of`]).
pub fn evdev_keycode_to_egui_key(code: u16) -> (r: Option<KeyName>)
    ensures
        r == key_name_of(code),
{
    match code {
        105 => Some(KeyName::ArrowLeft),
        106 => Some(KeyName::ArrowRight),
        103 => Some(KeyName::ArrowUp),
        108 => Some(KeyName::ArrowDown),
        104 => Some(KeyName::PageUp),
        109 => Some(KeyName::PageDown),
        57 => Some(KeyName::Space),
        15 => Some(KeyName::Tab),
        28 => Some(KeyName::Enter),
        14 => Some(KeyName::Backspace),
        111 => Some(KeyName::Delete),
        1 => Some(KeyName::Escape),
        11 => Some(KeyName::Num0),
        2 => Some(KeyName::Num1),
        3 => Some(KeyName::Num2),
        4 => Some(KeyName::Num3),
        5 => Some(KeyName::Num4),
        6 => Some(KeyName::Num5),
        7 => Some(KeyName::Num6),
        8 => Some(KeyName::Num7),
        9 => Some(KeyName::Num8),
        10 => Some(KeyName::Num9),
        30 => Some(KeyName::A),
        48 => Some(KeyName::B),
        46 => Some(KeyName::C),
        32 => Some(KeyName::D),
        18 => Some(KeyName::E),
        33 => Some(KeyName::F),
        34 => Some(KeyName::G),
        35 => Some(KeyName::H),
        23 => Some(KeyName::I),
        36 => Some(KeyName::J),
        37 => Some(KeyName::K),
        38 => Some(KeyName::L),
        50 => Some(KeyName::M),
        49 => Some(KeyName::N),
        24 => Some(KeyName::O),
        25 => Some(KeyName::P),
        16 => Some(KeyName::Q),
        19 => Some(KeyName::R),
        31 => Some(KeyName::S),
        20 => Some(KeyName::T),
        22 => Some(KeyName::U),
        47 => Some(KeyName::V),
        17 => Some(KeyName::W),
        45 => Some(KeyName::X),
        21 => Some(KeyName::Y),
        44 => Some(KeyName::Z),
        41 => Some(KeyName::Backtick),
        43 => Some(KeyName::Backslash),
        12 => Some(KeyName::Minus),
        13 => Some(KeyName::Equals),
        26 => Some(KeyName::OpenBracket),
        27 => Some(KeyName::CloseBracket),
        39 => Some(KeyName::Semicolon),
        40 => Some(KeyName::Quote),
        51 => Some(KeyName::Comma),
        52 => Some(KeyName::Period),
        53 => Some(KeyName::Slash),
        _ => None,
    }
}

} // verus!
