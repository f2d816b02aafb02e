use vstd::prelude::*;
use crate::pad::button::{AnyButton, Button, HORIZONTAL_MASK, VERTICAL_MASK};

verus! {

/// Whether a state holds a vertical and a horizontal direction at once.
pub open spec fn is_diagonal(state: u16) -> bool {
    state & VERTICAL_MASK != 0 && state & HORIZONTAL_MASK != 0
}

/// The state after setting the bits `btn` to `value`.
///
/// Releasing clears the bits. Pressing sets them, except that when diagonals are not
/// allowed a vertical and a horizontal direction never stay held together: the one
/// pressed now wins, unless the vertical one was already held on the previous frame
/// without a horizontal one, in which case the vertical one wins.
pub open spec fn set_state_spec(
    state: u16,
    previous: u16,
    allow_diagonals: bool,
    btn: u16,
    value: bool,
) -> u16 {
    if !value {
        state & !btn
    } else if allow_diagonals {
        state | btn
    } else {
        let vertical_held_alone = previous & VERTICAL_MASK != 0 && previous & HORIZONTAL_MASK == 0;
        if btn & VERTICAL_MASK != 0 && state & HORIZONTAL_MASK != 0 {
            if vertical_held_alone {
                (state & !HORIZONTAL_MASK) | btn
            } else {
                state
            }
        } else if btn & HORIZONTAL_MASK != 0 && state & VERTICAL_MASK != 0 {
            if vertical_held_alone {
                state
            } else {
                (state & !VERTICAL_MASK) | btn
            }
        } else {
            state | btn
        }
    }
}

/// A simple virtual game controller with only digital buttons.
#[derive(Debug, PartialEq, Clone, Copy)]
pub struct DPad {
    pub state: u16,
    pub previous: u16,
    pub allow_diagonals: bool,
}

impl Default for DPad {
    fn default() -> (r: Self)
        ensures
            r == (DPad { state: 0, previous: 0, allow_diagonals: true }),
    {
        Self { state: 0, previous: 0, allow_diagonals: true }
    }
}

impl DPad {
    /// A controller with nothing pressed, diagonals allowed.
    pub fn new() -> (r: Self)
        ensures
            r == (DPad { state: 0, previous: 0, allow_diagonals: true }),
    {
        Self::default()
    }

    /// Resets the controller to `new()`.
    pub fn clear(&mut self)
        ensures
            *final(self) == (DPad { state: 0, previous: 0, allow_diagonals: true }),
    {
        *self = Self::default()
    }

    /// Must be called once per frame, before the current state is set.
    pub fn copy_current_to_previous_state(&mut self)
        ensures
            *final(self) == (DPad { previous: old(self).state, ..*old(self) }),
    {
        self.previous = self.state;
    }

    /// Whether the button is currently down.
    pub fn is_down(&self, button: Button) -> (r: bool)
        ensures
            r == (self.state & button.spec_mask() != 0),
    {
        (self.state & button.mask()) != 0
    }

    /// Whether the button is currently up.
    pub fn is_up(&self, button: Button) -> (r: bool)
        ensures
            r == (self.state & button.spec_mask() == 0),
    {
        (self.state & button.mask()) == 0
    }

    /// Whether the button went down this frame.
    pub fn is_just_pressed(&self, button: Button) -> (r: bool)
        ensures
            r == (self.state & button.spec_mask() != 0 && self.previous & button.spec_mask() == 0),
    {
        self.is_down(button) && (self.previous & button.mask() == 0)
    }

    /// Whether the button went up this frame.
    pub fn is_just_released(&self, button: Button) -> (r: bool)
        ensures
            r == (self.state & button.spec_mask() == 0 && self.previous & button.spec_mask() != 0),
    {
        !self.is_down(button) && (self.previous & button.mask() != 0)
    }

    /// Whether any button of the group is currently down.
    pub fn is_any_down(&self, button_group: AnyButton) -> (r: bool)
        ensures
            r == (self.state & button_group.spec_mask() != 0),
    {
        (self.state & button_group.mask()) != 0
    }

    /// Whether some button of the group is down now while none was on the previous frame.
    pub fn is_any_just_pressed(&self, button_group: AnyButton) -> (r: bool)
        ensures
            r == (self.state & button_group.spec_mask() != 0 && self.previous
                & button_group.spec_mask() == 0),
    {
        let current_state = self.state & button_group.mask();
        let previous_state = self.previous & button_group.mask();
        current_state != 0 && previous_state == 0
    }

    /// Whether no button of the group is down now while some was on the previous frame.
    pub fn is_any_just_released(&self, button_group: AnyButton) -> (r: bool)
        ensures
            r == (self.state & button_group.spec_mask() == 0 && self.previous
                & button_group.spec_mask() != 0),
    {
        let current_state = self.state & button_group.mask();
        let previous_state = self.previous & button_group.mask();
        current_state == 0 && previous_state != 0
    }

    /// Sets the bit of a button (see `set_state_spec` for what happens to diagonals).
    pub fn set_state(&mut self, button: Button, value: bool)
        ensures
            final(self).previous == old(self).previous,
            final(self).allow_diagonals == old(self).allow_diagonals,
            final(self).state == set_state_spec(
                old(self).state,
                old(self).previous,
                old(self).allow_diagonals,
                button.spec_mask(),
                value,
            ),
    {
        let btn = button.mask();
        if value && !self.allow_diagonals {
            let v_mask: u16 = VERTICAL_MASK;
            let h_mask: u16 = HORIZONTAL_MASK;
            if (btn & v_mask) != 0 && (self.state & h_mask) != 0 {
                if (self.previous & v_mask) != 0 && (self.previous & h_mask) == 0 {
                    self.state = self.state & !h_mask;
                } else {
                    return;
                }
            } else if (btn & h_mask) != 0 && (self.state & v_mask) != 0 {
                if (self.previous & v_mask) != 0 && (self.previous & h_mask) == 0 {
                    return;
                } else {
                    self.state = self.state & !v_mask;
                }
            }
        }
        if value {
            self.state = self.state | btn;
        } else {
            self.state = self.state & !btn;
        }
    }
}

/// Whether `m` is the bit of a single button.
pub open spec fn is_button_bit(m: u16) -> bool {
    m == 0x0001 || m == 0x0002 || m == 0x0004 || m == 0x0008 || m == 0x0010 || m == 0x0020 || m
        == 0x0040 || m == 0x0080 || m == 0x0100 || m == 0x0200 || m == 0x0400 || m == 0x0800 || m
        == 0x1000 || m == 0x2000
}

/// Bits of different buttons do not overlap, and a button is either a direction or
/// clear of every direction bit.
proof fn lemma_button_bits(a: u16, b: u16)
    by (bit_vector)
    requires
        is_button_bit(a),
        is_button_bit(b),
    ensures
        a != b ==> a & b == 0,
        a == 1 || a == 2 || a == 4 || a == 8 || a & 15 == 0,
        a != 0,
{
}

/// Releasing a button leaves it up and every other button as it was.
pub proof fn lemma_release(state: u16, previous: u16, allow_diagonals: bool, button: Button)
    ensures
        set_state_spec(state, previous, allow_diagonals, button.spec_mask(), false)
            & button.spec_mask() == 0,
        forall|other: Button|
            other != button ==> (set_state_spec(
                state,
                previous,
                allow_diagonals,
                button.spec_mask(),
                false,
            ) & #[trigger] other.spec_mask() == state & other.spec_mask()),
{
    let m = button.spec_mask();
    assert(is_button_bit(m));
    assert(state & !m & m == 0) by (bit_vector);
    assert forall|other: Button| other != button implies (state & !m) & #[trigger] other.spec_mask()
        == state & other.spec_mask() by {
        let o = other.spec_mask();
        assert(is_button_bit(o));
        lemma_button_bits(o, m);
        assert(o & m == 0 ==> (state & !m) & o == state & o) by (bit_vector);
    }
}

/// Pressing a button leaves it down, unless diagonals are not allowed and a crossing
/// direction holds it off.
pub proof fn lemma_press(state: u16, previous: u16, allow_diagonals: bool, button: Button)
    ensures
        allow_diagonals ==> set_state_spec(state, previous, allow_diagonals, button.spec_mask(), true)
            == state | button.spec_mask(),
        allow_diagonals || (button.spec_mask() & (VERTICAL_MASK | HORIZONTAL_MASK)) == 0 ==> set_state_spec(
            state,
            previous,
            allow_diagonals,
            button.spec_mask(),
            true,
        ) & button.spec_mask() != 0,
{
    let m = button.spec_mask();
    assert(is_button_bit(m));
    lemma_button_bits(m, m);
    assert(m != 0 ==> (state | m) & m != 0) by (bit_vector);
    if !allow_diagonals && (m & (VERTICAL_MASK | HORIZONTAL_MASK)) == 0 {
        assert(m & (12u16 | 3u16) == 0 ==> m & 12 == 0 && m & 3 == 0) by (bit_vector);
    }
}

/// Without diagonals, setting a button never makes a vertical and a horizontal
/// direction held together, starting from a state that has no such pair.
pub proof fn lemma_no_diagonal(state: u16, previous: u16, button: Button, value: bool)
    requires
        !is_diagonal(state),
    ensures
        !is_diagonal(set_state_spec(state, previous, false, button.spec_mask(), value)),
{
    let b = button.spec_mask();
    assert(is_button_bit(b));
    lemma_button_bits(b, b);
    assert((b == 1 || b == 2 || b == 4 || b == 8 || b & 15 == 0) && !(state & 12 != 0 && state & 3
        != 0) ==> !((state & !b) & 12 != 0 && (state & !b) & 3 != 0) && !((((state & !3u16) | b) & 12
        != 0 && ((state & !3u16) | b) & 3 != 0) && b & 12 != 0) && !((((state & !12u16) | b) & 12 != 0
        && ((state & !12u16) | b) & 3 != 0) && b & 3 != 0) && (b & 12 != 0 && state & 3 != 0 || b & 3
        != 0 && state & 12 != 0 || !((state | b) & 12 != 0 && (state | b) & 3 != 0))) by (bit_vector);
}

/// Without diagonals, pressing Left or Right while a vertical direction is held, when the
/// previous frame did not hold a vertical direction alone, leaves the pressed button down
/// and Up and Down released: the horizontal direction wins.
pub proof fn lemma_horizontal_press_wins(state: u16, previous: u16, button: Button)
    requires
        button == Button::Left || button == Button::Right,
        state & (Button::Up.spec_mask() | Button::Down.spec_mask()) != 0,
        !(previous & (Button::Up.spec_mask() | Button::Down.spec_mask()) != 0 && previous & (
        Button::Left.spec_mask() | Button::Right.spec_mask()) == 0),
    ensures
        set_state_spec(state, previous, false, button.spec_mask(), true) & button.spec_mask() != 0,
        set_state_spec(state, previous, false, button.spec_mask(), true) & Button::Up.spec_mask() == 0,
        set_state_spec(state, previous, false, button.spec_mask(), true) & Button::Down.spec_mask() == 0,
{
    let b = button.spec_mask();
    assert(b == 1 || b == 2);
    assert(Button::Up.spec_mask() | Button::Down.spec_mask() == VERTICAL_MASK) by (bit_vector)
        requires
            Button::Up.spec_mask() == 4,
            Button::Down.spec_mask() == 8,
            VERTICAL_MASK == 12,
    ;
    assert(Button::Left.spec_mask() | Button::Right.spec_mask() == HORIZONTAL_MASK) by (bit_vector)
        requires
            Button::Left.spec_mask() == 1,
            Button::Right.spec_mask() == 2,
            HORIZONTAL_MASK == 3,
    ;
    assert((b == 1u16 || b == 2u16) ==> ((state & !12u16) | b) & b != 0 && ((state & !12u16) | b) & 4 == 0
        && ((state & !12u16) | b) & 8 == 0 && b & 12 == 0 && b & 3 != 0) by (bit_vector);
}

/// Without diagonals, pressing Left or Right while a vertical direction is held, when the
/// previous frame held a vertical direction without a horizontal one, changes nothing:
/// the vertical direction holds and the pressed button stays up if it was.
pub proof fn lemma_vertical_held_alone_wins(state: u16, previous: u16, button: Button)
    requires
        button == Button::Left || button == Button::Right,
        state & (Button::Up.spec_mask() | Button::Down.spec_mask()) != 0,
        previous & (Button::Up.spec_mask() | Button::Down.spec_mask()) != 0,
        previous & (Button::Left.spec_mask() | Button::Right.spec_mask()) == 0,
    ensures
        set_state_spec(state, previous, false, button.spec_mask(), true) == state,
{
    let b = button.spec_mask();
    assert(b == 1 || b == 2);
    assert(Button::Up.spec_mask() | Button::Down.spec_mask() == VERTICAL_MASK) by (bit_vector)
        requires
            Button::Up.spec_mask() == 4,
            Button::Down.spec_mask() == 8,
            VERTICAL_MASK == 12,
    ;
    assert(Button::Left.spec_mask() | Button::Right.spec_mask() == HORIZONTAL_MASK) by (bit_vector)
        requires
            Button::Left.spec_mask() == 1,
            Button::Right.spec_mask() == 2,
            HORIZONTAL_MASK == 3,
    ;
    assert((b == 1u16 || b == 2u16) ==> b & 12 == 0 && b & 3 != 0) by (bit_vector);
}

} // verus!
