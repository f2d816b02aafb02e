use vstd::prelude::*;

verus! {

/// A single digital button, standing for one bit of a `DPad` state.
#[derive(Debug, Clone, Copy, PartialEq, Eq, Structural)]
pub enum Button {
    Left,
    Right,
    Up,
    Down,
    Menu,
    Start,
    A,
    B,
    X,
    Y,
    LeftShoulder,
    RightShoulder,
    LeftTrigger,
    RightTrigger,
}

/// A group of buttons, standing for several bits of a `DPad` state.
#[derive(Debug, Clone, Copy, PartialEq, Eq, Structural)]
pub enum AnyButton {
    /// Every button.
    Any,
    /// Left, Right, Up and Down.
    Direction,
    /// A, B, X and Y.
    Face,
    /// Menu and Start.
    System,
    /// The shoulder buttons and triggers.
    Shoulder,
}

/// Bits of the four directions, Up and Down.
pub const VERTICAL_MASK: u16 = 0b_0000_0000_0000_1100;

/// Bits of the four directions, Left and Right.
pub const HORIZONTAL_MASK: u16 = 0b_0000_0000_0000_0011;

impl Button {
    /// The bit that stands for the button.
    pub open spec fn spec_mask(self) -> u16 {
        match self {
            Button::Left => 0x0001,
            Button::Right => 0x0002,
            Button::Up => 0x0004,
            Button::Down => 0x0008,
            Button::Menu => 0x0010,
            Button::Start => 0x0020,
            Button::A => 0x0040,
            Button::B => 0x0080,
            Button::X => 0x0100,
            Button::Y => 0x0200,
            Button::LeftShoulder => 0x0400,
            Button::RightShoulder => 0x0800,
            Button::LeftTrigger => 0x1000,
            Button::RightTrigger => 0x2000,
        }
    }

    /// The bit that stands for the button.
    pub fn mask(self) -> (r: u16)
        ensures
            r == self.spec_mask(),
    {
        match self {
            Button::Left => 0x0001,
            Button::Right => 0x0002,
            Button::Up => 0x0004,
            Button::Down => 0x0008,
            Button::Menu => 0x0010,
            Button::Start => 0x0020,
            Button::A => 0x0040,
            Button::B => 0x0080,
            Button::X => 0x0100,
            Button::Y => 0x0200,
            Button::LeftShoulder => 0x0400,
            Button::RightShoulder => 0x0800,
            Button::LeftTrigger => 0x1000,
            Button::RightTrigger => 0x2000,
        }
    }
}

impl AnyButton {
    /// The bits that stand for the group.
    pub open spec fn spec_mask(self) -> u16 {
        match self {
            AnyButton::Any => 0x3fff,
            AnyButton::Direction => 0x000f,
            AnyButton::Face => 0x03c0,
            AnyButton::System => 0x0030,
            AnyButton::Shoulder => 0x3c00,
        }
    }

    /// The bits that stand for the group.
    pub fn mask(self) -> (r: u16)
        ensures
            r == self.spec_mask(),
    {
        match self {
            AnyButton::Any => 0x3fff,
            AnyButton::Direction => 0x000f,
            AnyButton::Face => 0x03c0,
            AnyButton::System => 0x0030,
            AnyButton::Shoulder => 0x3c00,
        }
    }
}

} // verus!
