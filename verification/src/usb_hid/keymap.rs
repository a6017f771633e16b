//! Keys of USB keyboards.

use vstd::prelude::*;

verus! {

/// A key.
#[derive(Clone, Copy, Debug, PartialEq, Eq, Structural)]
pub enum Keycode {
    A,
    B,
    C,
    D,
    E,
    F,
    G,
    H,
    I,
    J,
    K,
    L,
    M,
    N,
    O,
    P,
    Q,
    R,
    S,
    T,
    U,
    V,
    W,
    X,
    Y,
    Z,
    Num1,
    Num2,
    Num3,
    Num4,
    Num5,
    Num6,
    Num7,
    Num8,
    Num9,
    Num0,
    Enter,
    Escape,
    Backspace,
    Tab,
    Space,
    Minus,
    Equals,
    LeftBracket,
    RightBracket,
    Backslash,
    Semicolon,
    Quote,
    Backtick,
    Comma,
    Period,
    Slash,
    CapsLock,
    F1,
    F2,
    F3,
    F4,
    F5,
    F6,
    F7,
    F8,
    F9,
    F10,
    F11,
    F12,
    PadMultiply,
    ScrollLock,
    Pause,
    Insert,
    Home,
    PageUp,
    Delete,
    End,
    PageDown,
    Right,
    Left,
    Down,
    Up,
    NumLock,
    PadMinus,
    PadPlus,
    Control,
    LeftShift,
    Alt,
    SuperKeyLeft,
    RightShift,
    SuperKeyRight,
    NonUsBackslash,
    Menu,
}

/// Modifier keys that are held.
#[derive(Clone, Copy, Debug, PartialEq, Eq, Structural)]
pub struct KeyboardModifiers {
    pub control_left: bool,
    pub shift_left: bool,
    pub alt: bool,
    pub super_key_left: bool,
    pub control_right: bool,
    pub shift_right: bool,
    pub alt_gr: bool,
    pub super_key_right: bool,
}

/// The key of a usage identifier of the keyboard page.
pub open spec fn keycode_of(usage: u8) -> Option<Keycode> {
    match usage {
        0x04 => Some(Keycode::A),
        0x05 => Some(Keycode::B),
        0x06 => Some(Keycode::C),
        0x07 => Some(Keycode::D),
        0x08 => Some(Keycode::E),
        0x09 => Some(Keycode::F),
        0x0A => Some(Keycode::G),
        0x0B => Some(Keycode::H),
        0x0C => Some(Keycode::I),
        0x0D => Some(Keycode::J),
        0x0E => Some(Keycode::K),
        0x0F => Some(Keycode::L),
        0x10 => Some(Keycode::M),
        0x11 => Some(Keycode::N),
        0x12 => Some(Keycode::O),
        0x13 => Some(Keycode::P),
        0x14 => Some(Keycode::Q),
        0x15 => Some(Keycode::R),
        0x16 => Some(Keycode::S),
        0x17 => Some(Keycode::T),
        0x18 => Some(Keycode::U),
        0x19 => Some(Keycode::V),
        0x1A => Some(Keycode::W),
        0x1B => Some(Keycode::X),
        0x1C => Some(Keycode::Y),
        0x1D => Some(Keycode::Z),
        0x1E => Some(Keycode::Num1),
        0x1F => Some(Keycode::Num2),
        0x20 => Some(Keycode::Num3),
        0x21 => Some(Keycode::Num4),
        0x22 => Some(Keycode::Num5),
        0x23 => Some(Keycode::Num6),
        0x24 => Some(Keycode::Num7),
        0x25 => Some(Keycode::Num8),
        0x26 => Some(Keycode::Num9),
        0x27 => Some(Keycode::Num0),
        0x28 => Some(Keycode::Enter),
        0x29 => Some(Keycode::Escape),
        0x2A => Some(Keycode::Backspace),
        0x2B => Some(Keycode::Tab),
        0x2C => Some(Keycode::Space),
        0x2D => Some(Keycode::Minus),
        0x2E => Some(Keycode::Equals),
        0x2F => Some(Keycode::LeftBracket),
        0x30 => Some(Keycode::RightBracket),
        0x31 => Some(Keycode::Backslash),
        0x33 => Some(Keycode::Semicolon),
        0x34 => Some(Keycode::Quote),
        0x35 => Some(Keycode::Backtick),
        0x36 => Some(Keycode::Comma),
        0x37 => Some(Keycode::Period),
        0x38 => Some(Keycode::Slash),
        0x39 => Some(Keycode::CapsLock),
        0x3A => Some(Keycode::F1),
        0x3B => Some(Keycode::F2),
        0x3C => Some(Keycode::F3),
        0x3D => Some(Keycode::F4),
        0x3E => Some(Keycode::F5),
        0x3F => Some(Keycode::F6),
        0x40 => Some(Keycode::F7),
        0x41 => Some(Keycode::F8),
        0x42 => Some(Keycode::F9),
        0x43 => Some(Keycode::F10),
        0x44 => Some(Keycode::F11),
        0x45 => Some(Keycode::F12),
        0x46 => Some(Keycode::PadMultiply),
        0x47 => Some(Keycode::ScrollLock),
        0x48 => Some(Keycode::Pause),
        0x49 => Some(Keycode::Insert),
        0x4A => Some(Keycode::Home),
        0x4B => Some(Keycode::PageUp),
        0x4C => Some(Keycode::Delete),
        0x4D => Some(Keycode::End),
        0x4E => Some(Keycode::PageDown),
        0x4F => Some(Keycode::Right),
        0x50 => Some(Keycode::Left),
        0x51 => Some(Keycode::Down),
        0x52 => Some(Keycode::Up),
        0x53 => Some(Keycode::NumLock),
        0x54 => Some(Keycode::Slash),
        0x55 => Some(Keycode::PadMultiply),
        0x56 => Some(Keycode::PadMinus),
        0x57 => Some(Keycode::PadPlus),
        0x58 => Some(Keycode::Enter),
        0xE0 => Some(Keycode::Control),
        0xE1 => Some(Keycode::LeftShift),
        0xE2 => Some(Keycode::Alt),
        0xE3 => Some(Keycode::SuperKeyLeft),
        0xE4 => Some(Keycode::Control),
        0xE5 => Some(Keycode::RightShift),
        0xE6 => Some(Keycode::Alt),
        0xE7 => Some(Keycode::SuperKeyRight),
        0x64 => Some(Keycode::NonUsBackslash),
        0x65 => Some(Keycode::Menu),
        _ => None,
    }
}

/// The key of a usage identifier of the keyboard page. `None` for those without a key.
pub fn hid_usage_to_keycode(usage: u8) -> (r: Option<Keycode>)
    ensures
        r == keycode_of(usage),
{
    match usage {
        0x04 => Some(Keycode::A),
        0x05 => Some(Keycode::B),
        0x06 => Some(Keycode::C),
        0x07 => Some(Keycode::D),
        0x08 => Some(Keycode::E),
        0x09 => Some(Keycode::F),
        0x0A => Some(Keycode::G),
        0x0B => Some(Keycode::H),
        0x0C => Some(Keycode::I),
        0x0D => Some(Keycode::J),
        0x0E => Some(Keycode::K),
        0x0F => Some(Keycode::L),
        0x10 => Some(Keycode::M),
        0x11 => Some(Keycode::N),
        0x12 => Some(Keycode::O),
        0x13 => Some(Keycode::P),
        0x14 => Some(Keycode::Q),
        0x15 => Some(Keycode::R),
        0x16 => Some(Keycode::S),
        0x17 => Some(Keycode::T),
        0x18 => Some(Keycode::U),
        0x19 => Some(Keycode::V),
        0x1A => Some(Keycode::W),
        0x1B => Some(Keycode::X),
        0x1C => Some(Keycode::Y),
        0x1D => Some(Keycode::Z),
        0x1E => Some(Keycode::Num1),
        0x1F => Some(Keycode::Num2),
        0x20 => Some(Keycode::Num3),
        0x21 => Some(Keycode::Num4),
        0x22 => Some(Keycode::Num5),
        0x23 => Some(Keycode::Num6),
        0x24 => Some(Keycode::Num7),
        0x25 => Some(Keycode::Num8),
        0x26 => Some(Keycode::Num9),
        0x27 => Some(Keycode::Num0),
        0x28 => Some(Keycode::Enter),
        0x29 => Some(Keycode::Escape),
        0x2A => Some(Keycode::Backspace),
        0x2B => Some(Keycode::Tab),
        0x2C => Some(Keycode::Space),
        0x2D => Some(Keycode::Minus),
        0x2E => Some(Keycode::Equals),
        0x2F => Some(Keycode::LeftBracket),
        0x30 => Some(Keycode::RightBracket),
        0x31 => Some(Keycode::Backslash),
        0x33 => Some(Keycode::Semicolon),
        0x34 => Some(Keycode::Quote),
        0x35 => Some(Keycode::Backtick),
        0x36 => Some(Keycode::Comma),
        0x37 => Some(Keycode::Period),
        0x38 => Some(Keycode::Slash),
        0x39 => Some(Keycode::CapsLock),
        0x3A => Some(Keycode::F1),
        0x3B => Some(Keycode::F2),
        0x3C => Some(Keycode::F3),
        0x3D => Some(Keycode::F4),
        0x3E => Some(Keycode::F5),
        0x3F => Some(Keycode::F6),
        0x40 => Some(Keycode::F7),
        0x41 => Some(Keycode::F8),
        0x42 => Some(Keycode::F9),
        0x43 => Some(Keycode::F10),
        0x44 => Some(Keycode::F11),
        0x45 => Some(Keycode::F12),
        0x46 => Some(Keycode::PadMultiply),
        0x47 => Some(Keycode::ScrollLock),
        0x48 => Some(Keycode::Pause),
        0x49 => Some(Keycode::Insert),
        0x4A => Some(Keycode::Home),
        0x4B => Some(Keycode::PageUp),
        0x4C => Some(Keycode::Delete),
        0x4D => Some(Keycode::End),
        0x4E => Some(Keycode::PageDown),
        0x4F => Some(Keycode::Right),
        0x50 => Some(Keycode::Left),
        0x51 => Some(Keycode::Down),
        0x52 => Some(Keycode::Up),
        0x53 => Some(Keycode::NumLock),
        0x54 => Some(Keycode::Slash),
        0x55 => Some(Keycode::PadMultiply),
        0x56 => Some(Keycode::PadMinus),
        0x57 => Some(Keycode::PadPlus),
        0x58 => Some(Keycode::Enter),
        0xE0 => Some(Keycode::Control),
        0xE1 => Some(Keycode::LeftShift),
        0xE2 => Some(Keycode::Alt),
        0xE3 => Some(Keycode::SuperKeyLeft),
        0xE4 => Some(Keycode::Control),
        0xE5 => Some(Keycode::RightShift),
        0xE6 => Some(Keycode::Alt),
        0xE7 => Some(Keycode::SuperKeyRight),
        0x64 => Some(Keycode::NonUsBackslash),
        0x65 => Some(Keycode::Menu),
        _ => None,
    }
}

/// Bit `k` of a byte.
pub open spec fn bit(b: u8, k: int) -> bool {
    if k == 0 {
        b % 2 == 1
    } else if k == 1 {
        b / 2 % 2 == 1
    } else if k == 2 {
        b / 4 % 2 == 1
    } else if k == 3 {
        b / 8 % 2 == 1
    } else if k == 4 {
        b / 16 % 2 == 1
    } else if k == 5 {
        b / 32 % 2 == 1
    } else if k == 6 {
        b / 64 % 2 == 1
    } else {
        b / 128 == 1
    }
}

/// Whether a bit of a byte is set.
pub fn test_bit(b: u8, k: u8) -> (r: bool)
    requires
        k < 8,
    ensures
        r == bit(b, k as int),
{
    assert((b & (1u8 << 0u8) != 0) == (b % 2 == 1) && (b & (1u8 << 1u8) != 0) == (b / 2 % 2 == 1)
        && (b & (1u8 << 2u8) != 0) == (b / 4 % 2 == 1) && (b & (1u8 << 3u8) != 0) == (b / 8 % 2 == 1)
        && (b & (1u8 << 4u8) != 0) == (b / 16 % 2 == 1) && (b & (1u8 << 5u8) != 0) == (b / 32 % 2
        == 1) && (b & (1u8 << 6u8) != 0) == (b / 64 % 2 == 1) && (b & (1u8 << 7u8) != 0) == (b / 128
        == 1)) by (bit_vector);
    b & (1u8 << k) != 0
}

/// The modifier keys in the first byte of a report: control, shift, alt and super on
/// the left, and then on the right.
pub open spec fn modifiers_of(mods: u8) -> KeyboardModifiers {
    KeyboardModifiers {
        control_left: bit(mods, 0),
        shift_left: bit(mods, 1),
        alt: bit(mods, 2),
        super_key_left: bit(mods, 3),
        control_right: bit(mods, 4),
        shift_right: bit(mods, 5),
        alt_gr: bit(mods, 6),
        super_key_right: bit(mods, 7),
    }
}

/// The modifier keys in the first byte of a report.
pub fn hid_modifiers_to_keyboard_modifiers(mods: u8) -> (r: KeyboardModifiers)
    ensures
        r == modifiers_of(mods),
{
    KeyboardModifiers {
        control_left: test_bit(mods, 0),
        shift_left: test_bit(mods, 1),
        alt: test_bit(mods, 2),
        super_key_left: test_bit(mods, 3),
        control_right: test_bit(mods, 4),
        shift_right: test_bit(mods, 5),
        alt_gr: test_bit(mods, 6),
        super_key_right: test_bit(mods, 7),
    }
}

/// Every bit of the modifier byte has a key.
pub proof fn modifier_bits_have_keys(k: int)
    requires
        0 <= k < 8,
    ensures
        keycode_of((0xE0 + k) as u8) is Some,
{
}

/// The usage that a key is known by; where two keys share a code, that of the first.
pub open spec fn usage_of(key: Keycode) -> u8 {
    match key {
        Keycode::A => 0x04,
        Keycode::B => 0x05,
        Keycode::C => 0x06,
        Keycode::D => 0x07,
        Keycode::E => 0x08,
        Keycode::F => 0x09,
        Keycode::G => 0x0A,
        Keycode::H => 0x0B,
        Keycode::I => 0x0C,
        Keycode::J => 0x0D,
        Keycode::K => 0x0E,
        Keycode::L => 0x0F,
        Keycode::M => 0x10,
        Keycode::N => 0x11,
        Keycode::O => 0x12,
        Keycode::P => 0x13,
        Keycode::Q => 0x14,
        Keycode::R => 0x15,
        Keycode::S => 0x16,
        Keycode::T => 0x17,
        Keycode::U => 0x18,
        Keycode::V => 0x19,
        Keycode::W => 0x1A,
        Keycode::X => 0x1B,
        Keycode::Y => 0x1C,
        Keycode::Z => 0x1D,
        Keycode::Num1 => 0x1E,
        Keycode::Num2 => 0x1F,
        Keycode::Num3 => 0x20,
        Keycode::Num4 => 0x21,
        Keycode::Num5 => 0x22,
        Keycode::Num6 => 0x23,
        Keycode::Num7 => 0x24,
        Keycode::Num8 => 0x25,
        Keycode::Num9 => 0x26,
        Keycode::Num0 => 0x27,
        Keycode::Enter => 0x28,
        Keycode::Escape => 0x29,
        Keycode::Backspace => 0x2A,
        Keycode::Tab => 0x2B,
        Keycode::Space => 0x2C,
        Keycode::Minus => 0x2D,
        Keycode::Equals => 0x2E,
        Keycode::LeftBracket => 0x2F,
        Keycode::RightBracket => 0x30,
        Keycode::Backslash => 0x31,
        Keycode::Semicolon => 0x33,
        Keycode::Quote => 0x34,
        Keycode::Backtick => 0x35,
        Keycode::Comma => 0x36,
        Keycode::Period => 0x37,
        Keycode::Slash => 0x38,
        Keycode::CapsLock => 0x39,
        Keycode::F1 => 0x3A,
        Keycode::F2 => 0x3B,
        Keycode::F3 => 0x3C,
        Keycode::F4 => 0x3D,
        Keycode::F5 => 0x3E,
        Keycode::F6 => 0x3F,
        Keycode::F7 => 0x40,
        Keycode::F8 => 0x41,
        Keycode::F9 => 0x42,
        Keycode::F10 => 0x43,
        Keycode::F11 => 0x44,
        Keycode::F12 => 0x45,
        Keycode::PadMultiply => 0x46,
        Keycode::ScrollLock => 0x47,
        Keycode::Pause => 0x48,
        Keycode::Insert => 0x49,
        Keycode::Home => 0x4A,
        Keycode::PageUp => 0x4B,
        Keycode::Delete => 0x4C,
        Keycode::End => 0x4D,
        Keycode::PageDown => 0x4E,
        Keycode::Right => 0x4F,
        Keycode::Left => 0x50,
        Keycode::Down => 0x51,
        Keycode::Up => 0x52,
        Keycode::NumLock => 0x53,
        Keycode::PadMinus => 0x56,
        Keycode::PadPlus => 0x57,
        Keycode::Control => 0xE0,
        Keycode::LeftShift => 0xE1,
        Keycode::Alt => 0xE2,
        Keycode::SuperKeyLeft => 0xE3,
        Keycode::RightShift => 0xE5,
        Keycode::SuperKeyRight => 0xE7,
        Keycode::NonUsBackslash => 0x64,
        Keycode::Menu => 0x65,
    }
}

/// Each key has its usage. The keypad repeats a few keys of the main block, and the right-hand
/// control and alt keys count as the left-hand ones; any other usage names at most one key.
pub proof fn each_key_has_its_usage(key: Keycode, usage: u8)
    ensures
        keycode_of(usage_of(key)) == Some(key),
        keycode_of(usage) is Some ==> usage == usage_of(keycode_of(usage).unwrap()) || usage == 0x54
            || usage == 0x55 || usage == 0x58 || usage == 0xE4 || usage == 0xE6,
        keycode_of(usage) is Some <==> 4 <= usage <= 0x31 || 0x33 <= usage <= 0x58 || usage == 0x64
            || usage == 0x65 || 0xE0 <= usage <= 0xE7,
        keycode_of(0x54) == keycode_of(0x38),
        keycode_of(0x55) == keycode_of(0x46),
        keycode_of(0x58) == keycode_of(0x28),
        keycode_of(0xE4) == keycode_of(0xE0),
        keycode_of(0xE6) == keycode_of(0xE2),
{
}

/// The value of a flag as a digit.
pub open spec fn digit(b: bool) -> int {
    if b {
        1
    } else {
        0
    }
}

/// A byte is the sum of its bits.
pub proof fn byte_is_the_sum_of_its_bits(b: u8)
    ensures
        b == digit(bit(b, 0)) + 2 * digit(bit(b, 1)) + 4 * digit(bit(b, 2)) + 8 * digit(bit(b, 3))
            + 16 * digit(bit(b, 4)) + 32 * digit(bit(b, 5)) + 64 * digit(bit(b, 6)) + 128 * digit(
            bit(b, 7),
        ),
{
    let v = b as int;
    assert(v == 2 * (v / 2) + v % 2);
    assert(digit(bit(b, 0)) == v % 2);
    assert(v / 2 == 2 * (v / 4) + v / 2 % 2);
    assert(digit(bit(b, 1)) == v / 2 % 2);
    assert(v / 4 == 2 * (v / 8) + v / 4 % 2);
    assert(digit(bit(b, 2)) == v / 4 % 2);
    assert(v / 8 == 2 * (v / 16) + v / 8 % 2);
    assert(digit(bit(b, 3)) == v / 8 % 2);
    assert(v / 16 == 2 * (v / 32) + v / 16 % 2);
    assert(digit(bit(b, 4)) == v / 16 % 2);
    assert(v / 32 == 2 * (v / 64) + v / 32 % 2);
    assert(digit(bit(b, 5)) == v / 32 % 2);
    assert(v / 64 == 2 * (v / 128) + v / 64 % 2);
    assert(digit(bit(b, 6)) == v / 64 % 2);
    assert(digit(bit(b, 7)) == v / 128);
}

/// The modifier byte holds a bit for each modifier: control, shift, alt and super from the
/// lowest, first those on the left, then those on the right.
pub proof fn modifiers_make_up_the_byte(mods: u8)
    ensures
        ({
            let m = modifiers_of(mods);
            mods == digit(m.control_left) + 2 * digit(m.shift_left) + 4 * digit(m.alt) + 8 * digit(
                m.super_key_left,
            ) + 16 * digit(m.control_right) + 32 * digit(m.shift_right) + 64 * digit(m.alt_gr) + 128
                * digit(m.super_key_right)
        }),
{
    byte_is_the_sum_of_its_bits(mods);
}

} // verus!
