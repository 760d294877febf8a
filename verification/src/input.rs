use vstd::prelude::*;

verus! {

/// Whether the button sets given by the bit patterns `held` and `button` have
/// any button in common.
pub open spec fn bits_overlap(held: u32, button: u32) -> bool {
    held & button != 0
}

/// A set of input buttons, one bit per button.
#[derive(Debug, Clone, Copy, PartialEq, Eq, Structural)]
pub struct Buttons {
    bits: u32,
}

impl Buttons {
    /// The bit pattern of the set.
    pub closed spec fn view(&self) -> u32 {
        self.bits
    }

    /// The set holding only the left button.
    pub fn left() -> (result: Buttons)
        ensures
            result@ == 1,
    {
        Buttons { bits: 0b00000001 }
    }

    /// The set holding only the right button.
    pub fn right() -> (result: Buttons)
        ensures
            result@ == 2,
    {
        Buttons { bits: 0b00000010 }
    }

    /// The set holding only the jump button.
    pub fn jump() -> (result: Buttons)
        ensures
            result@ == 4,
    {
        Buttons { bits: 0b00000100 }
    }

    /// The set whose bit pattern is `bits`.
    pub closed spec fn spec_from_bits(bits: u32) -> Buttons {
        Buttons { bits }
    }

    /// The set made from a bit pattern has that bit pattern.
    pub proof fn lemma_spec_from_bits(bits: u32)
        ensures
            Buttons::spec_from_bits(bits)@ == bits,
    {
    }

    /// A set is the set made from its own bit pattern.
    pub proof fn lemma_from_own_bits(buttons: Buttons)
        ensures
            Buttons::spec_from_bits(buttons@) == buttons,
    {
    }

    /// The set with no button in it.
    pub fn empty() -> (result: Buttons)
        ensures
            result@ == 0,
    {
        Buttons { bits: 0 }
    }

    /// The set whose bit pattern is `bits`, unknown bits included.
    pub fn from_bits_retain(bits: u32) -> (result: Buttons)
        ensures
            result == Buttons::spec_from_bits(bits),
            result@ == bits,
    {
        Buttons { bits }
    }

    /// The bit pattern of the set.
    pub fn bits(&self) -> (result: u32)
        ensures
            result == self@,
    {
        self.bits
    }

    /// Whether the set holds no button.
    pub fn is_empty(&self) -> (result: bool)
        ensures
            result == (self@ == 0),
    {
        self.bits == 0
    }

    /// The buttons that are in either set.
    pub fn union(self, other: Buttons) -> (result: Buttons)
        ensures
            result@ == self@ | other@,
    {
        Buttons { bits: self.bits | other.bits }
    }

    /// The buttons that are in both sets.
    pub fn intersection(self, other: Buttons) -> (result: Buttons)
        ensures
            result@ == self@ & other@,
    {
        Buttons { bits: self.bits & other.bits }
    }

    /// Whether any of the buttons in `button` is in this set.
    pub fn is_down(&self, button: Buttons) -> (result: bool)
        ensures
            result == bits_overlap(self@, button@),
    {
        !self.intersection(button).is_empty()
    }
}

impl Default for Buttons {
    fn default() -> (result: Buttons)
        ensures
            result@ == 0,
    {
        Buttons::empty()
    }
}

/// The buttons held in the current frame and in the frame before it.
#[derive(Clone, Copy)]
pub struct InputState {
    current: Buttons,
    previous: Buttons,
}

impl InputState {
    /// The buttons held in the current frame.
    pub closed spec fn current(&self) -> Buttons {
        self.current
    }

    /// The buttons held in the frame before the current one.
    pub closed spec fn previous(&self) -> Buttons {
        self.previous
    }

    /// Whether any of the buttons in `button` is held in the current frame.
    pub open spec fn is_down_spec(&self, button: Buttons) -> bool {
        bits_overlap(self.current()@, button@)
    }

    /// Whether any of the buttons in `button` is held in the current frame
    /// while none of them was held in the frame before.
    pub open spec fn is_pressed_spec(&self, button: Buttons) -> bool {
        bits_overlap(self.current()@, button@) && !bits_overlap(self.previous()@, button@)
    }

    /// Moves on to a new frame in which `new_buttons` are held.
    pub fn update(&mut self, new_buttons: Buttons)
        ensures
            final(self).current() == new_buttons,
            final(self).previous() == old(self).current(),
    {
        self.previous = self.current;
        self.current = new_buttons;
    }

    /// Whether any of the buttons in `button` is held in the current frame.
    pub fn is_down(&self, button: Buttons) -> (result: bool)
        ensures
            result == self.is_down_spec(button),
    {
        self.current.is_down(button)
    }

    /// Whether any of the buttons in `button` is held in the current frame
    /// while none of them was held in the frame before.
    pub fn is_pressed(&self, button: Buttons) -> (result: bool)
        ensures
            result == self.is_pressed_spec(button),
    {
        self.current.is_down(button) && !self.previous.is_down(button)
    }
}

impl Default for InputState {
    fn default() -> (result: InputState)
        ensures
            result.current()@ == 0,
            result.previous()@ == 0,
    {
        InputState { current: Buttons::empty(), previous: Buttons::empty() }
    }
}

/// A button that is pressed is also down.
pub proof fn pressed_implies_down(state: InputState, button: Buttons)
    ensures
        state.is_pressed_spec(button) ==> state.is_down_spec(button),
{
}

/// Nothing is down, and so nothing is pressed, in the default state.
pub proof fn nothing_down_at_start(state: InputState, button: Buttons)
    requires
        state.current()@ == 0,
        state.previous()@ == 0,
    ensures
        !state.is_down_spec(button),
        !state.is_pressed_spec(button),
{
    let b = button@;
    assert(0u32 & b == 0) by (bit_vector);
}

/// A button is pressed only in a frame that follows one in which it was not
/// down: whatever other buttons change, one that was already down in the
/// frame before is not pressed, and one that is pressed was not down before
/// and is down now.
pub proof fn pressed_only_after_a_frame_without_it(first: InputState, second: InputState, button: Buttons)
    requires
        second.previous() == first.current(),
    ensures
        first.current()@ & button@ != 0 ==> !second.is_pressed_spec(button),
        second.is_pressed_spec(button) ==> first.current()@ & button@ == 0 && second.current()@
            & button@ != 0,
        first.current()@ & button@ == 0 && second.current()@ & button@ != 0
            ==> second.is_pressed_spec(button),
        second.is_down_spec(button) <==> second.current()@ & button@ != 0,
{
}

/// A button that stays held is pressed in the first frame that holds it at
/// most: when `second` follows `first` by an update, and both frames hold the
/// same buttons, no button counts as pressed in `second`.
pub proof fn held_button_is_not_pressed_again(first: InputState, second: InputState, button: Buttons)
    requires
        second.previous() == first.current(),
        second.current() == first.current(),
    ensures
        !second.is_pressed_spec(button),
{
}

} // verus!
