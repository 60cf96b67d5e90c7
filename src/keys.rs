use vstd::prelude::*;

verus! {

/// Host key codes of the Linux input layer for the sixteen keys in use: the
/// block from `1` to `4` down to `Z` to `V` on a QWERTY keyboard.
pub const KEY_1: u16 = 2;
pub const KEY_2: u16 = 3;
pub const KEY_3: u16 = 4;
pub const KEY_4: u16 = 5;
pub const KEY_Q: u16 = 16;
pub const KEY_W: u16 = 17;
pub const KEY_E: u16 = 18;
pub const KEY_R: u16 = 19;
pub const KEY_A: u16 = 30;
pub const KEY_S: u16 = 31;
pub const KEY_D: u16 = 32;
pub const KEY_F: u16 = 33;
pub const KEY_Z: u16 = 44;
pub const KEY_X: u16 = 45;
pub const KEY_C: u16 = 46;
pub const KEY_V: u16 = 47;

/// The keypad layout: which keypad key (0 to 15) a host key stands for.
///
/// ```text
/// 1 2 3 4      1 2 3 C
/// Q W E R  ->  4 5 6 D
/// A S D F      7 8 9 E
/// Z X C V      A 0 B F
/// ```
pub open spec fn keypad_of(code: u16) -> Option<usize> {
    if code == KEY_1 {
        Some(0x1)
    } else if code == KEY_2 {
        Some(0x2)
    } else if code == KEY_3 {
        Some(0x3)
    } else if code == KEY_4 {
        Some(0xc)
    } else if code == KEY_Q {
        Some(0x4)
    } else if code == KEY_W {
        Some(0x5)
    } else if code == KEY_E {
        Some(0x6)
    } else if code == KEY_R {
        Some(0xd)
    } else if code == KEY_A {
        Some(0x7)
    } else if code == KEY_S {
        Some(0x8)
    } else if code == KEY_D {
        Some(0x9)
    } else if code == KEY_F {
        Some(0xe)
    } else if code == KEY_Z {
        Some(0xa)
    } else if code == KEY_X {
        Some(0x0)
    } else if code == KEY_C {
        Some(0xb)
    } else if code == KEY_V {
        Some(0xf)
    } else {
        None
    }
}

/// The keypad key that host key `code` stands for, or `None` for a key that
/// is not in use.
pub fn key_idx(code: u16) -> (r: Option<usize>)
    ensures
        r == keypad_of(code),
        r matches Some(k) ==> k < 16,
{
    match code {
        KEY_1 => Some(0x1),
        KEY_2 => Some(0x2),
        KEY_3 => Some(0x3),
        KEY_4 => Some(0xc),
        KEY_Q => Some(0x4),
        KEY_W => Some(0x5),
        KEY_E => Some(0x6),
        KEY_R => Some(0xd),
        KEY_A => Some(0x7),
        KEY_S => Some(0x8),
        KEY_D => Some(0x9),
        KEY_F => Some(0xe),
        KEY_Z => Some(0xa),
        KEY_X => Some(0x0),
        KEY_C => Some(0xb),
        KEY_V => Some(0xf),
        _ => None,
    }
}

} // verus!
