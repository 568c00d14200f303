//! The event model: a closed set of event kinds, their category bitmasks, the
//! payload each kind carries, and the mapping of the windowing backend's
//! notifications.
use vstd::prelude::*;

verus! {

/// Category bit of window and application-lifecycle events.
pub const CATEGORY_APPLICATION: u8 = 1;

/// Category bit of every input event.
pub const CATEGORY_INPUT: u8 = 2;

/// Category bit of keyboard events.
pub const CATEGORY_KEYBOARD: u8 = 4;

/// Category bit of mouse events.
pub const CATEGORY_MOUSE: u8 = 8;

/// Category bit of mouse-button events.
pub const CATEGORY_MOUSE_BUTTON: u8 = 16;

/// Number of event kinds.
pub const EVENT_TYPE_COUNT: usize = 15;

/// A set of event categories, as a bitmask over the `CATEGORY_*` bits.
#[derive(Clone, Copy, PartialEq, Eq, Debug, Hash, Structural)]
pub struct EventCategory {
    pub bits: u8,
}

impl EventCategory {
    /// The empty set of categories.
    pub fn empty() -> (r: EventCategory)
        ensures
            r.bits == 0,
    {
        EventCategory { bits: 0 }
    }

    /// The set holding the categories of `bits`.
    pub fn from_bits(bits: u8) -> (r: EventCategory)
        ensures
            r.bits == bits,
    {
        EventCategory { bits }
    }

    /// The categories that are in `self` or in `other`.
    pub fn union(self, other: EventCategory) -> (r: EventCategory)
        ensures
            r.bits == self.bits | other.bits,
    {
        EventCategory { bits: self.bits | other.bits }
    }

    /// Whether `self` and `other` share at least one category.
    pub fn intersects(self, other: EventCategory) -> (r: bool)
        ensures
            r == (self.bits & other.bits != 0),
    {
        self.bits & other.bits != 0
    }
}

/// The kind of an event, without its payload.
#[derive(Clone, Copy, PartialEq, Eq, PartialOrd, Ord, Debug, Hash, Structural)]
pub enum EventType {
    WindowClose,
    WindowResize,
    WindowMoved,
    WindowFocus,
    WindowLostFocus,
    KeyPressed,
    KeyReleased,
    MouseButtonPressed,
    MouseButtonReleased,
    MouseMoved,
    MouseScrolled,
    AppTick,
    AppUpdate,
    AppRender,
    Unknown,
}

/// The category bitmask of each kind of event.
pub open spec fn category_bits(t: EventType) -> u8 {
    match t {
        EventType::WindowClose | EventType::WindowResize | EventType::WindowMoved
        | EventType::WindowFocus | EventType::WindowLostFocus | EventType::AppTick
        | EventType::AppUpdate | EventType::AppRender => CATEGORY_APPLICATION,
        EventType::KeyPressed | EventType::KeyReleased => CATEGORY_KEYBOARD | CATEGORY_INPUT,
        EventType::MouseButtonPressed | EventType::MouseButtonReleased => CATEGORY_MOUSE_BUTTON
            | CATEGORY_MOUSE | CATEGORY_INPUT,
        EventType::MouseMoved | EventType::MouseScrolled => CATEGORY_MOUSE | CATEGORY_INPUT,
        EventType::Unknown => 0,
    }
}

/// The position of each kind in the declaration order, from 0.
pub open spec fn type_index(t: EventType) -> nat {
    match t {
        EventType::WindowClose => 0,
        EventType::WindowResize => 1,
        EventType::WindowMoved => 2,
        EventType::WindowFocus => 3,
        EventType::WindowLostFocus => 4,
        EventType::KeyPressed => 5,
        EventType::KeyReleased => 6,
        EventType::MouseButtonPressed => 7,
        EventType::MouseButtonReleased => 8,
        EventType::MouseMoved => 9,
        EventType::MouseScrolled => 10,
        EventType::AppTick => 11,
        EventType::AppUpdate => 12,
        EventType::AppRender => 13,
        EventType::Unknown => 14,
    }
}

/// The name of each kind, as it is written in the source.
pub open spec fn kind_name(t: EventType) -> Seq<char> {
    match t {
        EventType::WindowClose => "WindowClose"@,
        EventType::WindowResize => "WindowResize"@,
        EventType::WindowMoved => "WindowMoved"@,
        EventType::WindowFocus => "WindowFocus"@,
        EventType::WindowLostFocus => "WindowLostFocus"@,
        EventType::KeyPressed => "KeyPressed"@,
        EventType::KeyReleased => "KeyReleased"@,
        EventType::MouseButtonPressed => "MouseButtonPressed"@,
        EventType::MouseButtonReleased => "MouseButtonReleased"@,
        EventType::MouseMoved => "MouseMoved"@,
        EventType::MouseScrolled => "MouseScrolled"@,
        EventType::AppTick => "AppTick"@,
        EventType::AppUpdate => "AppUpdate"@,
        EventType::AppRender => "AppRender"@,
        EventType::Unknown => "Unknown"@,
    }
}

impl EventType {
    /// The category bitmask of this kind.
    pub fn category(self) -> (r: EventCategory)
        ensures
            r.bits == category_bits(self),
    {
        let bits: u8 = match self {
            EventType::WindowClose | EventType::WindowResize | EventType::WindowMoved
            | EventType::WindowFocus | EventType::WindowLostFocus | EventType::AppTick
            | EventType::AppUpdate | EventType::AppRender => CATEGORY_APPLICATION,
            EventType::KeyPressed | EventType::KeyReleased => CATEGORY_KEYBOARD | CATEGORY_INPUT,
            EventType::MouseButtonPressed | EventType::MouseButtonReleased => CATEGORY_MOUSE_BUTTON
                | CATEGORY_MOUSE | CATEGORY_INPUT,
            EventType::MouseMoved | EventType::MouseScrolled => CATEGORY_MOUSE | CATEGORY_INPUT,
            EventType::Unknown => 0,
        };
        EventCategory { bits }
    }

    /// The position of this kind in the declaration order.
    pub fn index(self) -> (r: usize)
        ensures
            r == type_index(self),
            r < EVENT_TYPE_COUNT,
    {
        match self {
            EventType::WindowClose => 0,
            EventType::WindowResize => 1,
            EventType::WindowMoved => 2,
            EventType::WindowFocus => 3,
            EventType::WindowLostFocus => 4,
            EventType::KeyPressed => 5,
            EventType::KeyReleased => 6,
            EventType::MouseButtonPressed => 7,
            EventType::MouseButtonReleased => 8,
            EventType::MouseMoved => 9,
            EventType::MouseScrolled => 10,
            EventType::AppTick => 11,
            EventType::AppUpdate => 12,
            EventType::AppRender => 13,
            EventType::Unknown => 14,
        }
    }

    /// The name of this kind.
    pub fn name(self) -> (r: &'static str)
        ensures
            r@ == kind_name(self),
    {
        match self {
            EventType::WindowClose => "WindowClose",
            EventType::WindowResize => "WindowResize",
            EventType::WindowMoved => "WindowMoved",
            EventType::WindowFocus => "WindowFocus",
            EventType::WindowLostFocus => "WindowLostFocus",
            EventType::KeyPressed => "KeyPressed",
            EventType::KeyReleased => "KeyReleased",
            EventType::MouseButtonPressed => "MouseButtonPressed",
            EventType::MouseButtonReleased => "MouseButtonReleased",
            EventType::MouseMoved => "MouseMoved",
            EventType::MouseScrolled => "MouseScrolled",
            EventType::AppTick => "AppTick",
            EventType::AppUpdate => "AppUpdate",
            EventType::AppRender => "AppRender",
            EventType::Unknown => "Unknown",
        }
    }
}


/// Whether a key or mouse button went down, came up, or is held down and
/// repeating, as the windowing backend reports it.
#[derive(Clone, Copy, PartialEq, Eq, Debug, Hash, Structural)]
pub enum InputAction {
    Release,
    Press,
    Repeat,
}

/// A notification of the windowing backend, holding what the mapping into
/// an [`RGEvent`] reads. Cursor and scroll positions are kept as the bit
/// patterns of the backend's 64-bit floating-point values; the core carries
/// them without reading them.
#[derive(Clone, Copy, PartialEq, Eq, Debug, Hash, Structural)]
pub enum NativeEvent {
    Pos { x: i32, y: i32 },
    Size { width: i32, height: i32 },
    Close,
    Focus { focused: bool },
    MouseButton { button: i32, action: InputAction },
    CursorPos { x_bits: u64, y_bits: u64 },
    Scroll { x_bits: u64, y_bits: u64 },
    Key { key: i32, action: InputAction },
    /// Any notification that has no event kind of its own.
    Other,
}

/// An event: its kind together with the payload that kind carries.
#[derive(Clone, Copy, PartialEq, Eq, Debug, Hash, Structural)]
pub enum RGEvent {
    WindowClose,
    WindowResize { width: i32, height: i32 },
    WindowMoved { x: i32, y: i32 },
    WindowFocus,
    WindowLostFocus,
    KeyPressed { key: i32, repeat: bool },
    KeyReleased { key: i32 },
    MouseButtonPressed { button: i32 },
    MouseButtonReleased { button: i32 },
    MouseMoved { x_bits: u64, y_bits: u64 },
    MouseScrolled { x_offset_bits: u64, y_offset_bits: u64 },
    AppTick,
    AppUpdate,
    AppRender,
    Unknown,
}

/// The kind of an event.
pub open spec fn kind_of(e: RGEvent) -> EventType {
    match e {
        RGEvent::WindowClose => EventType::WindowClose,
        RGEvent::WindowResize { .. } => EventType::WindowResize,
        RGEvent::WindowMoved { .. } => EventType::WindowMoved,
        RGEvent::WindowFocus => EventType::WindowFocus,
        RGEvent::WindowLostFocus => EventType::WindowLostFocus,
        RGEvent::KeyPressed { .. } => EventType::KeyPressed,
        RGEvent::KeyReleased { .. } => EventType::KeyReleased,
        RGEvent::MouseButtonPressed { .. } => EventType::MouseButtonPressed,
        RGEvent::MouseButtonReleased { .. } => EventType::MouseButtonReleased,
        RGEvent::MouseMoved { .. } => EventType::MouseMoved,
        RGEvent::MouseScrolled { .. } => EventType::MouseScrolled,
        RGEvent::AppTick => EventType::AppTick,
        RGEvent::AppUpdate => EventType::AppUpdate,
        RGEvent::AppRender => EventType::AppRender,
        RGEvent::Unknown => EventType::Unknown,
    }
}

/// The event that a notification of the windowing backend stands for. A key
/// that repeats is a key press marked as repeating; a mouse button reported as
/// repeating counts as pressed; a notification without a kind of its own is
/// `Unknown`.
pub open spec fn event_of_native(n: NativeEvent) -> RGEvent {
    match n {
        NativeEvent::Pos { x, y } => RGEvent::WindowMoved { x, y },
        NativeEvent::Size { width, height } => RGEvent::WindowResize { width, height },
        NativeEvent::Close => RGEvent::WindowClose,
        NativeEvent::Focus { focused } => if focused {
            RGEvent::WindowFocus
        } else {
            RGEvent::WindowLostFocus
        },
        NativeEvent::MouseButton { button, action } => match action {
            InputAction::Release => RGEvent::MouseButtonReleased { button },
            _ => RGEvent::MouseButtonPressed { button },
        },
        NativeEvent::CursorPos { x_bits, y_bits } => RGEvent::MouseMoved { x_bits, y_bits },
        NativeEvent::Scroll { x_bits, y_bits } => RGEvent::MouseScrolled {
            x_offset_bits: x_bits,
            y_offset_bits: y_bits,
        },
        NativeEvent::Key { key, action } => match action {
            InputAction::Release => RGEvent::KeyReleased { key },
            InputAction::Press => RGEvent::KeyPressed { key, repeat: false },
            InputAction::Repeat => RGEvent::KeyPressed { key, repeat: true },
        },
        NativeEvent::Other => RGEvent::Unknown,
    }
}

impl RGEvent {
    /// The event that a notification of the windowing backend stands for;
    /// never fails.
    pub fn from_native(n: NativeEvent) -> (r: RGEvent)
        ensures
            r == event_of_native(n),
    {
        match n {
            NativeEvent::Pos { x, y } => RGEvent::WindowMoved { x, y },
            NativeEvent::Size { width, height } => RGEvent::WindowResize { width, height },
            NativeEvent::Close => RGEvent::WindowClose,
            NativeEvent::Focus { focused } => if focused {
                RGEvent::WindowFocus
            } else {
                RGEvent::WindowLostFocus
            },
            NativeEvent::MouseButton { button, action } => match action {
                InputAction::Release => RGEvent::MouseButtonReleased { button },
                InputAction::Press | InputAction::Repeat => RGEvent::MouseButtonPressed { button },
            },
            NativeEvent::CursorPos { x_bits, y_bits } => RGEvent::MouseMoved { x_bits, y_bits },
            NativeEvent::Scroll { x_bits, y_bits } => RGEvent::MouseScrolled {
                x_offset_bits: x_bits,
                y_offset_bits: y_bits,
            },
            NativeEvent::Key { key, action } => match action {
                InputAction::Release => RGEvent::KeyReleased { key },
                InputAction::Press => RGEvent::KeyPressed { key, repeat: false },
                InputAction::Repeat => RGEvent::KeyPressed { key, repeat: true },
            },
            NativeEvent::Other => RGEvent::Unknown,
        }
    }

    /// The kind of this event.
    pub fn get_type(&self) -> (r: EventType)
        ensures
            r == kind_of(*self),
    {
        match self {
            RGEvent::WindowClose => EventType::WindowClose,
            RGEvent::WindowResize { .. } => EventType::WindowResize,
            RGEvent::WindowMoved { .. } => EventType::WindowMoved,
            RGEvent::WindowFocus => EventType::WindowFocus,
            RGEvent::WindowLostFocus => EventType::WindowLostFocus,
            RGEvent::KeyPressed { .. } => EventType::KeyPressed,
            RGEvent::KeyReleased { .. } => EventType::KeyReleased,
            RGEvent::MouseButtonPressed { .. } => EventType::MouseButtonPressed,
            RGEvent::MouseButtonReleased { .. } => EventType::MouseButtonReleased,
            RGEvent::MouseMoved { .. } => EventType::MouseMoved,
            RGEvent::MouseScrolled { .. } => EventType::MouseScrolled,
            RGEvent::AppTick => EventType::AppTick,
            RGEvent::AppUpdate => EventType::AppUpdate,
            RGEvent::AppRender => EventType::AppRender,
            RGEvent::Unknown => EventType::Unknown,
        }
    }

    /// The category bitmask of this event's kind.
    pub fn get_category(&self) -> (r: EventCategory)
        ensures
            r.bits == category_bits(kind_of(*self)),
    {
        self.get_type().category()
    }

    /// Whether this event's categories intersect `category`.
    pub fn is_in_category(&self, category: EventCategory) -> (r: bool)
        ensures
            r == (category_bits(kind_of(*self)) & category.bits != 0),
    {
        self.get_category().intersects(category)
    }
}

/// An event in flight: what happened, and whether a consumer has fully
/// processed it. The flag starts unset and only [`Event::mark_handled`] sets it.
pub struct Event {
    payload: RGEvent,
    handled: bool,
}

impl Event {
    /// What happened.
    pub closed spec fn spec_payload(&self) -> RGEvent {
        self.payload
    }

    /// Whether a consumer has fully processed the event.
    pub closed spec fn spec_handled(&self) -> bool {
        self.handled
    }

    /// The fresh, unhandled event of `payload`.
    pub closed spec fn fresh(payload: RGEvent) -> Event {
        Event { payload, handled: false }
    }

    /// A fresh, unhandled event.
    pub fn new(payload: RGEvent) -> (r: Event)
        ensures
            r == Event::fresh(payload),
            r.spec_payload() == payload,
            !r.spec_handled(),
    {
        Event { payload, handled: false }
    }

    /// A fresh, unhandled event made from a notification of the windowing
    /// backend.
    pub fn from_native(n: NativeEvent) -> (r: Event)
        ensures
            r == Event::fresh(event_of_native(n)),
            r.spec_payload() == event_of_native(n),
            !r.spec_handled(),
    {
        Event::new(RGEvent::from_native(n))
    }

    /// What happened.
    pub fn payload(&self) -> (r: RGEvent)
        ensures
            r == self.spec_payload(),
    {
        self.payload
    }

    /// The kind of the event.
    pub fn get_type(&self) -> (r: EventType)
        ensures
            r == kind_of(self.spec_payload()),
    {
        self.payload.get_type()
    }

    /// The category bitmask of the event's kind.
    pub fn get_category(&self) -> (r: EventCategory)
        ensures
            r.bits == category_bits(kind_of(self.spec_payload())),
    {
        self.payload.get_category()
    }

    /// Whether the event's categories intersect `category`.
    pub fn is_in_category(&self, category: EventCategory) -> (r: bool)
        ensures
            r == (category_bits(kind_of(self.spec_payload())) & category.bits != 0),
    {
        self.payload.is_in_category(category)
    }

    /// Whether a consumer has fully processed the event.
    pub fn is_handled(&self) -> (r: bool)
        ensures
            r == self.spec_handled(),
    {
        self.handled
    }

    /// Records that a consumer has fully processed the event; doing so again
    /// changes nothing.
    pub fn mark_handled(&mut self)
        ensures
            final(self).spec_payload() == old(self).spec_payload(),
            final(self).spec_handled(),
    {
        self.handled = true;
    }

    /// A human-readable description of the event: the name of its kind.
    pub fn describe(&self) -> (r: String)
        ensures
            r@ == kind_name(kind_of(self.spec_payload())),
    {
        self.payload.get_type().name().to_owned()
    }
}

/// An event of unknown kind is in no category, whatever mask it is tested
/// against.
pub proof fn lemma_unknown_in_no_category(mask: u8)
    ensures
        category_bits(EventType::Unknown) & mask == 0,
{
    assert(0u8 & mask == 0) by (bit_vector);
}

/// Every kind carries the category bits that its family implies: mouse kinds
/// the mouse bit, keyboard kinds the keyboard bit, and every input kind the
/// input bit.
pub proof fn lemma_categories_consistent(t: EventType)
    ensures
        (t == EventType::MouseButtonPressed || t == EventType::MouseButtonReleased
            || t == EventType::MouseMoved || t == EventType::MouseScrolled) ==> category_bits(t)
            & CATEGORY_MOUSE != 0,
        (t == EventType::MouseButtonPressed || t == EventType::MouseButtonReleased)
            ==> category_bits(t) & CATEGORY_MOUSE_BUTTON != 0,
        (t == EventType::KeyPressed || t == EventType::KeyReleased) ==> category_bits(t)
            & CATEGORY_KEYBOARD != 0,
        (t == EventType::KeyPressed || t == EventType::KeyReleased
            || t == EventType::MouseButtonPressed || t == EventType::MouseButtonReleased
            || t == EventType::MouseMoved || t == EventType::MouseScrolled) ==> category_bits(t)
            & CATEGORY_INPUT != 0,
{
    assert((16u8 | 8u8 | 2u8) & 8u8 != 0) by (bit_vector);
    assert((16u8 | 8u8 | 2u8) & 16u8 != 0) by (bit_vector);
    assert((16u8 | 8u8 | 2u8) & 2u8 != 0) by (bit_vector);
    assert((8u8 | 2u8) & 8u8 != 0) by (bit_vector);
    assert((8u8 | 2u8) & 2u8 != 0) by (bit_vector);
    assert((4u8 | 2u8) & 4u8 != 0) by (bit_vector);
    assert((4u8 | 2u8) & 2u8 != 0) by (bit_vector);
}

} // verus!
