use vstd::prelude::*;

verus! {

/// The sixteen keys of the hexadecimal keypad.
#[derive(Clone, Copy, Debug, PartialEq, Eq, Structural)]
pub enum Chip8Keys {
    Num0,
    Num1,
    Num2,
    Num3,
    Num4,
    Num5,
    Num6,
    Num7,
    Num8,
    Num9,
    A,
    B,
    C,
    D,
    E,
    F,
}

impl Chip8Keys {
    /// The keypad index of the key, which is the hexadecimal digit printed on it.
    pub open spec fn spec_index(self) -> nat {
        match self {
            Chip8Keys::Num0 => 0,
            Chip8Keys::Num1 => 1,
            Chip8Keys::Num2 => 2,
            Chip8Keys::Num3 => 3,
            Chip8Keys::Num4 => 4,
            Chip8Keys::Num5 => 5,
            Chip8Keys::Num6 => 6,
            Chip8Keys::Num7 => 7,
            Chip8Keys::Num8 => 8,
            Chip8Keys::Num9 => 9,
            Chip8Keys::A => 10,
            Chip8Keys::B => 11,
            Chip8Keys::C => 12,
            Chip8Keys::D => 13,
            Chip8Keys::E => 14,
            Chip8Keys::F => 15,
        }
    }

    /// The keypad index of the key, as taken by `Chip8::key_press` and
    /// `Chip8::key_release`.
    pub fn index(&self) -> (r: usize)
        ensures
            r == self.spec_index(),
            r < 16,
    {
        match self {
            Chip8Keys::Num0 => 0,
            Chip8Keys::Num1 => 1,
            Chip8Keys::Num2 => 2,
            Chip8Keys::Num3 => 3,
            Chip8Keys::Num4 => 4,
            Chip8Keys::Num5 => 5,
            Chip8Keys::Num6 => 6,
            Chip8Keys::Num7 => 7,
            Chip8Keys::Num8 => 8,
            Chip8Keys::Num9 => 9,
            Chip8Keys::A => 10,
            Chip8Keys::B => 11,
            Chip8Keys::C => 12,
            Chip8Keys::D => 13,
            Chip8Keys::E => 14,
            Chip8Keys::F => 15,
        }
    }
}

} // verus!
