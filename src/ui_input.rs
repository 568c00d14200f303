//! The input state that an immediate-mode UI reads each frame — which mouse
//! buttons and keys are down, where the cursor is, how far the wheel turned —
//! kept up to date from the events that reach the UI layer.
use vstd::prelude::*;

use crate::events::{kind_of, lemma_categories_consistent, EventCategory, RGEvent, CATEGORY_INPUT};

verus! {

/// Number of mouse buttons the UI tracks.
pub const MOUSE_BUTTON_COUNT: usize = 5;

/// Number of key codes the UI tracks, from 0.
pub const KEY_COUNT: usize = 512;

/// The UI's input state. Cursor position and wheel offset are the bit patterns
/// of the windowing backend's 64-bit floating-point values.
pub struct UiInputView {
    pub mouse_down: Seq<bool>,
    pub keys_down: Seq<bool>,
    pub mouse_pos_bits: (u64, u64),
    pub wheel_bits: u64,
}

/// The slot of a mouse button: its own for the first five buttons, and the
/// first slot for any other.
pub open spec fn button_slot(button: i32) -> int {
    if 0 <= button < MOUSE_BUTTON_COUNT {
        button as int
    } else {
        0
    }
}

/// The state after `e`: a mouse button's slot goes down or up, a tracked
/// key goes down (also on repeat) or up, the cursor position and the
/// vertical wheel offset are replaced; any other event, and a key code out of
/// range, changes nothing.
pub open spec fn apply_ui_event(v: UiInputView, e: RGEvent) -> UiInputView {
    match e {
        RGEvent::MouseButtonPressed { button } => UiInputView {
            mouse_down: v.mouse_down.update(button_slot(button), true),
            ..v
        },
        RGEvent::MouseButtonReleased { button } => UiInputView {
            mouse_down: v.mouse_down.update(button_slot(button), false),
            ..v
        },
        RGEvent::MouseMoved { x_bits, y_bits } => UiInputView {
            mouse_pos_bits: (x_bits, y_bits),
            ..v
        },
        RGEvent::MouseScrolled { y_offset_bits, .. } => UiInputView { wheel_bits: y_offset_bits, ..v },
        RGEvent::KeyPressed { key, .. } => if 0 <= key < KEY_COUNT {
            UiInputView { keys_down: v.keys_down.update(key as int, true), ..v }
        } else {
            v
        },
        RGEvent::KeyReleased { key } => if 0 <= key < KEY_COUNT {
            UiInputView { keys_down: v.keys_down.update(key as int, false), ..v }
        } else {
            v
        },
        _ => v,
    }
}

/// The input state of the UI layer.
pub struct UiInput {
    mouse_down: Vec<bool>,
    keys_down: Vec<bool>,
    mouse_pos_bits: (u64, u64),
    wheel_bits: u64,
}

impl View for UiInput {
    type V = UiInputView;

    closed spec fn view(&self) -> UiInputView {
        UiInputView {
            mouse_down: self.mouse_down@,
            keys_down: self.keys_down@,
            mouse_pos_bits: self.mouse_pos_bits,
            wheel_bits: self.wheel_bits,
        }
    }
}

/// A vector of `n` copies of `false`.
fn all_up(n: usize) -> (r: Vec<bool>)
    ensures
        r@ == Seq::new(n as nat, |i: int| false),
{
    let mut r: Vec<bool> = Vec::new();
    for i in 0..n
        invariant
            r@ == Seq::new(i as nat, |j: int| false),
    {
        r.push(false);
        assert(r@ =~= Seq::new((i + 1) as nat, |j: int| false));
    }
    r
}

impl UiInput {
    /// Every slot has its flag.
    pub open spec fn wf(&self) -> bool {
        &&& self@.mouse_down.len() == MOUSE_BUTTON_COUNT
        &&& self@.keys_down.len() == KEY_COUNT
    }

    /// Nothing down, the cursor and the wheel at zero.
    pub fn new() -> (r: UiInput)
        ensures
            r.wf(),
            r@.mouse_down == Seq::new(MOUSE_BUTTON_COUNT as nat, |i: int| false),
            r@.keys_down == Seq::new(KEY_COUNT as nat, |i: int| false),
            r@.mouse_pos_bits == (0u64, 0u64),
            r@.wheel_bits == 0,
    {
        UiInput {
            mouse_down: all_up(MOUSE_BUTTON_COUNT),
            keys_down: all_up(KEY_COUNT),
            mouse_pos_bits: (0, 0),
            wheel_bits: 0,
        }
    }

    /// Whether each mouse button is down, first button first.
    pub fn mouse_down(&self) -> (r: &Vec<bool>)
        ensures
            r@ == self@.mouse_down,
    {
        &self.mouse_down
    }

    /// Whether each key code is down, from 0.
    pub fn keys_down(&self) -> (r: &Vec<bool>)
        ensures
            r@ == self@.keys_down,
    {
        &self.keys_down
    }

    /// The bit patterns of the cursor's last position.
    pub fn mouse_pos_bits(&self) -> (r: (u64, u64))
        ensures
            r == self@.mouse_pos_bits,
    {
        self.mouse_pos_bits
    }

    /// The bit pattern of the last vertical wheel offset.
    pub fn wheel_bits(&self) -> (r: u64)
        ensures
            r == self@.wheel_bits,
    {
        self.wheel_bits
    }

    /// Takes note of an event that reached the UI layer; events outside the
    /// input category change nothing.
    pub fn on_event(&mut self, event: &RGEvent)
        requires
            old(self).wf(),
        ensures
            final(self).wf(),
            final(self)@ == apply_ui_event(old(self)@, *event),
    {
        if !event.is_in_category(EventCategory::from_bits(CATEGORY_INPUT)) {
            proof {
                lemma_categories_consistent(kind_of(*event));
            }
            return;
        }
        match *event {
            RGEvent::MouseButtonPressed { button } => {
                let slot: usize = if 0 <= button && button < 5 {
                    button as usize
                } else {
                    0
                };
                self.mouse_down.set(slot, true);
            },
            RGEvent::MouseButtonReleased { button } => {
                let slot: usize = if 0 <= button && button < 5 {
                    button as usize
                } else {
                    0
                };
                self.mouse_down.set(slot, false);
            },
            RGEvent::MouseMoved { x_bits, y_bits } => {
                self.mouse_pos_bits = (x_bits, y_bits);
            },
            RGEvent::MouseScrolled { y_offset_bits, .. } => {
                self.wheel_bits = y_offset_bits;
            },
            RGEvent::KeyPressed { key, .. } => {
                if 0 <= key && key < 512 {
                    self.keys_down.set(key as usize, true);
                }
            },
            RGEvent::KeyReleased { key } => {
                if 0 <= key && key < 512 {
                    self.keys_down.set(key as usize, false);
                }
            },
            _ => {},
        }
    }
}

} // verus!
