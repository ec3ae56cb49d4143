//! Turning key and game-pad input into the hero's controls.
use crate::sign::Sign;
use vstd::prelude::*;

verus! {

/// Key code of the `1` key.
pub const KEY_NUM1: i32 = 49;
/// Key code of the `2` key.
pub const KEY_NUM2: i32 = 50;
/// Key code of the `h` key.
pub const KEY_H: i32 = 104;
/// Key code of the backspace key.
pub const KEY_BACKSPACE: i32 = 8;
/// Key code of the return key.
pub const KEY_RETURN: i32 = 13;

/// Game-pad button: A.
pub const PAD_A: i32 = 0;
/// Game-pad button: left on the direction pad.
pub const PAD_DPAD_LEFT: i32 = 13;
/// Game-pad button: right on the direction pad.
pub const PAD_DPAD_RIGHT: i32 = 14;

/// One input from the player.
#[derive(Clone, Debug, PartialEq, Eq)]
pub enum Input {
    /// A key went down; `repeat` when the key is held and repeating.
    KeyDown { key: i32, repeat: bool },
    /// A key came up.
    KeyUp { key: i32, repeat: bool },
    /// A game-pad button went down.
    ButtonDown { button: i32 },
    /// A game-pad button came up.
    ButtonUp { button: i32 },
    /// Text was typed.
    TextInput { text: String },
    /// Anything else.
    Other,
}

/// The state of the controls, sent to the hero after each batch of input.
#[derive(Clone, Copy, Debug, PartialEq, Eq)]
pub struct ControllerState {
    pub id: u64,
    pub x: Sign,
    pub jump_held: bool,
}

/// A button with an action was pressed.
#[derive(Clone, Copy, Debug, PartialEq, Eq)]
pub struct ButtonPress(pub u64);

/// One control: the key and the pad button that work it, whether it is
/// held, and what pressing it announces.
#[derive(Clone, Copy, Debug)]
pub struct ControllerItem {
    pub key: i32,
    pub pad: i32,
    pub pressed: bool,
    pub on_press: Option<ButtonPress>,
}

/// Whether the input presses the control (a first key-down of its key, or
/// its pad button going down).
pub open spec fn presses(item: ControllerItem, input: Input) -> bool {
    match input {
        Input::KeyDown { key, repeat } => !repeat && key == item.key,
        Input::ButtonDown { button } => button == item.pad,
        _ => false,
    }
}

/// Whether the input releases the control.
pub open spec fn releases(item: ControllerItem, input: Input) -> bool {
    match input {
        Input::KeyUp { key, repeat } => !repeat && key == item.key,
        Input::ButtonUp { button } => button == item.pad,
        _ => false,
    }
}

/// Whether the control is held after the input: pressing holds it,
/// releasing lets it go, anything else leaves it.
pub open spec fn held_after(item: ControllerItem, input: Input) -> bool {
    if presses(item, input) {
        true
    } else if releases(item, input) {
        false
    } else {
        item.pressed
    }
}

/// The control after the input.
pub open spec fn item_after(item: ControllerItem, input: Input) -> ControllerItem {
    ControllerItem { pressed: held_after(item, input), ..item }
}

impl ControllerItem {
    /// Updates whether the control is held; a press hands back the
    /// control's announcement, if it has one.
    pub fn on_event(&mut self, event: &Input) -> (r: Option<ButtonPress>)
        ensures
            *final(self) == item_after(*old(self), *event),
            r == (if presses(*old(self), *event) { old(self).on_press } else { None }),
    {
        match event {
            Input::KeyDown { key, repeat } => {
                if !*repeat && *key == self.key {
                    self.pressed = true;
                    return self.on_press;
                }
                None
            },
            Input::KeyUp { key, repeat } => {
                if !*repeat && *key == self.key {
                    self.pressed = false;
                }
                None
            },
            Input::ButtonDown { button } => {
                if *button == self.pad {
                    self.pressed = true;
                    return self.on_press;
                }
                None
            },
            Input::ButtonUp { button } => {
                if *button == self.pad {
                    self.pressed = false;
                }
                None
            },
            _ => None,
        }
    }
}

/// The hero's controls: left, right and jump.
#[derive(Clone, Copy, Debug)]
pub struct Controller {
    pub id: u64,
    pub left: ControllerItem,
    pub right: ControllerItem,
    pub jump: ControllerItem,
}

/// The horizontal direction that two held-or-not controls ask for.
pub open spec fn direction(left: bool, right: bool) -> Sign {
    if left && !right {
        Sign::NEGATIVE
    } else if !left && right {
        Sign::POSITIVE
    } else {
        Sign::ZERO
    }
}

impl Controller {
    /// Controls worked by the given keys, or by the direction pad and the
    /// A button; jumping announces [`ButtonPress`] 1.
    pub fn new(left: i32, right: i32, jump: i32) -> (c: Self)
        ensures
            c.id == 1,
            c.left == (ControllerItem { key: left, pad: PAD_DPAD_LEFT, pressed: false, on_press: None }),
            c.right == (ControllerItem { key: right, pad: PAD_DPAD_RIGHT, pressed: false, on_press: None }),
            c.jump == (ControllerItem { key: jump, pad: PAD_A, pressed: false, on_press: Some(ButtonPress(1)) }),
    {
        Controller {
            id: 1,
            left: ControllerItem { key: left, pad: PAD_DPAD_LEFT, pressed: false, on_press: None },
            right: ControllerItem { key: right, pad: PAD_DPAD_RIGHT, pressed: false, on_press: None },
            jump: ControllerItem { key: jump, pad: PAD_A, pressed: false, on_press: Some(ButtonPress(1)) },
        }
    }

    /// Passes an input to the left, right and jump controls in turn and
    /// returns what they announce, in that order.
    pub fn on_event(&mut self, event: &Input) -> (r: Vec<ButtonPress>)
        ensures
            final(self).id == old(self).id,
            final(self).left == item_after(old(self).left, *event),
            final(self).right == item_after(old(self).right, *event),
            final(self).jump == item_after(old(self).jump, *event),
            r@ == announced(old(self).left, *event) + announced(old(self).right, *event) + announced(old(self).jump, *event),
    {
        let mut r: Vec<ButtonPress> = Vec::new();
        if let Some(p) = self.left.on_event(event) {
            r.push(p);
        }
        if let Some(p) = self.right.on_event(event) {
            r.push(p);
        }
        if let Some(p) = self.jump.on_event(event) {
            r.push(p);
        }
        assert(r@ =~= announced(old(self).left, *event) + announced(old(self).right, *event) + announced(old(self).jump, *event));
        r
    }

    /// The horizontal direction asked for: left or right if exactly one of
    /// them is held, otherwise none.
    pub fn x(&self) -> (s: Sign)
        ensures
            s == direction(self.left.pressed, self.right.pressed),
    {
        match (self.left.pressed, self.right.pressed) {
            (true, false) => Sign::NEGATIVE,
            (false, true) => Sign::POSITIVE,
            _ => Sign::ZERO,
        }
    }

    /// Whether jump is held.
    pub fn jump_held(&self) -> (b: bool)
        ensures
            b == self.jump.pressed,
    {
        self.jump.pressed
    }

    /// The state to send to the hero.
    pub fn fire_new_state(&self) -> (s: ControllerState)
        ensures
            s == (ControllerState {
                id: self.id,
                x: direction(self.left.pressed, self.right.pressed),
                jump_held: self.jump.pressed,
            }),
    {
        ControllerState { id: self.id, x: self.x(), jump_held: self.jump_held() }
    }
}

/// What one control announces for an input, as a list of at most one.
pub open spec fn announced(item: ControllerItem, input: Input) -> Seq<ButtonPress> {
    if presses(item, input) {
        match item.on_press {
            Some(p) => seq![p],
            None => seq![],
        }
    } else {
        seq![]
    }
}

/// Law: a control is held from the input that presses it until the one
/// that releases it, whatever comes between; and the hero goes left exactly
/// when left alone is held, right exactly when right alone is held.
pub proof fn law_press_then_release(item: ControllerItem, press: Input, between: Input, release: Input)
    requires
        presses(item, press),
        !presses(item, between),
        !releases(item, between),
        releases(item, release),
    ensures
        item_after(item, press).pressed,
        item_after(item_after(item, press), between).pressed,
        !item_after(item_after(item_after(item, press), between), release).pressed,
        direction(true, false) == Sign::NEGATIVE,
        direction(false, true) == Sign::POSITIVE,
        direction(true, true) == Sign::ZERO && direction(false, false) == Sign::ZERO,
{
}

} // verus!
