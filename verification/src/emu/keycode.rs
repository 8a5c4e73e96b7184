//! The keys of the host keyboard that the sixteen-key pad is mapped to.

use vstd::prelude::*;
use crate::text::same_text;

verus! {

#[derive(Debug, Clone, Copy, PartialEq, Eq, Structural)]
pub enum Keycode {
    Num1,
    Num2,
    Num3,
    Num4,
    Q,
    W,
    E,
    R,
    A,
    S,
    D,
    F,
    Z,
    X,
    C,
    V,
    /// Any key that the pad does not use.
    Other,
}

impl Keycode {
    /// The pad key that a host key stands for: the left four columns of a
    /// keyboard, laid out like the pad (`1 2 3 C`, `4 5 6 D`, `7 8 9 E`,
    /// `A 0 B F`).
    pub open spec fn pad_index(self) -> Option<usize> {
        match self {
            Keycode::Num1 => Some(0x1usize),
            Keycode::Num2 => Some(0x2usize),
            Keycode::Num3 => Some(0x3usize),
            Keycode::Num4 => Some(0xCusize),
            Keycode::Q => Some(0x4usize),
            Keycode::W => Some(0x5usize),
            Keycode::E => Some(0x6usize),
            Keycode::R => Some(0xDusize),
            Keycode::A => Some(0x7usize),
            Keycode::S => Some(0x8usize),
            Keycode::D => Some(0x9usize),
            Keycode::F => Some(0xEusize),
            Keycode::Z => Some(0xAusize),
            Keycode::X => Some(0x0usize),
            Keycode::C => Some(0xBusize),
            Keycode::V => Some(0xFusize),
            Keycode::Other => None,
        }
    }

    /// The key that a browser names in lower case: `digit1` to `digit4`
    /// for the digits and `key` with the letter for the letters. Any other
    /// name is a key that the pad does not use.
    pub open spec fn named(name: Seq<char>) -> Keycode {
        if name == "digit1"@ {
            Keycode::Num1
        } else if name == "digit2"@ {
            Keycode::Num2
        } else if name == "digit3"@ {
            Keycode::Num3
        } else if name == "digit4"@ {
            Keycode::Num4
        } else if name == "keya"@ {
            Keycode::A
        } else if name == "keyq"@ {
            Keycode::Q
        } else if name == "keyz"@ {
            Keycode::Z
        } else if name == "keye"@ {
            Keycode::E
        } else if name == "keyr"@ {
            Keycode::R
        } else if name == "keys"@ {
            Keycode::S
        } else if name == "keyd"@ {
            Keycode::D
        } else if name == "keyf"@ {
            Keycode::F
        } else if name == "keyw"@ {
            Keycode::W
        } else if name == "keyx"@ {
            Keycode::X
        } else if name == "keyc"@ {
            Keycode::C
        } else if name == "keyv"@ {
            Keycode::V
        } else {
            Keycode::Other
        }
    }

    /// The key that a browser names.
    pub fn from_name(name: &str) -> (key: Keycode)
        ensures
            key == Keycode::named(name@),
    {
        if same_text(name, "digit1") {
            Keycode::Num1
        } else if same_text(name, "digit2") {
            Keycode::Num2
        } else if same_text(name, "digit3") {
            Keycode::Num3
        } else if same_text(name, "digit4") {
            Keycode::Num4
        } else if same_text(name, "keya") {
            Keycode::A
        } else if same_text(name, "keyq") {
            Keycode::Q
        } else if same_text(name, "keyz") {
            Keycode::Z
        } else if same_text(name, "keye") {
            Keycode::E
        } else if same_text(name, "keyr") {
            Keycode::R
        } else if same_text(name, "keys") {
            Keycode::S
        } else if same_text(name, "keyd") {
            Keycode::D
        } else if same_text(name, "keyf") {
            Keycode::F
        } else if same_text(name, "keyw") {
            Keycode::W
        } else if same_text(name, "keyx") {
            Keycode::X
        } else if same_text(name, "keyc") {
            Keycode::C
        } else if same_text(name, "keyv") {
            Keycode::V
        } else {
            Keycode::Other
        }
    }
}

} // verus!
