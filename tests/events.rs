use rgengine::dispatcher::EventDispatcher;
use rgengine::events::{
    Event, EventCategory, EventType, InputAction, NativeEvent, RGEvent, CATEGORY_APPLICATION,
    CATEGORY_INPUT, CATEGORY_KEYBOARD, CATEGORY_MOUSE, CATEGORY_MOUSE_BUTTON, EVENT_TYPE_COUNT,
};
use rgengine::ui_input::{UiInput, KEY_COUNT, MOUSE_BUTTON_COUNT};
use rgengine::window::WindowData;

fn all_kinds() -> Vec<RGEvent> {
    vec![
        RGEvent::WindowClose,
        RGEvent::WindowResize { width: 800, height: 600 },
        RGEvent::WindowMoved { x: 10, y: 20 },
        RGEvent::WindowFocus,
        RGEvent::WindowLostFocus,
        RGEvent::KeyPressed { key: 65, repeat: false },
        RGEvent::KeyReleased { key: 65 },
        RGEvent::MouseButtonPressed { button: 0 },
        RGEvent::MouseButtonReleased { button: 0 },
        RGEvent::MouseMoved { x_bits: 1.5f64.to_bits(), y_bits: 2.5f64.to_bits() },
        RGEvent::MouseScrolled { x_offset_bits: 0, y_offset_bits: 1.0f64.to_bits() },
        RGEvent::AppTick,
        RGEvent::AppUpdate,
        RGEvent::AppRender,
        RGEvent::Unknown,
    ]
}

#[test]
fn categories_follow_kinds() {
    let expected: [u8; 15] = [1, 1, 1, 1, 1, 6, 6, 26, 26, 10, 10, 1, 1, 1, 0];
    for (e, bits) in all_kinds().iter().zip(expected.iter()) {
        assert_eq!(e.get_category().bits, *bits, "{:?}", e);
    }
}

#[test]
fn is_in_category_means_masks_intersect() {
    for e in all_kinds() {
        for mask in 0u8..=255 {
            let expected = e.get_category().bits & mask != 0;
            assert_eq!(e.is_in_category(EventCategory::from_bits(mask)), expected);
        }
    }
    let key = RGEvent::KeyReleased { key: 1 };
    assert!(key.is_in_category(EventCategory::from_bits(CATEGORY_KEYBOARD)));
    assert!(key.is_in_category(EventCategory::from_bits(CATEGORY_INPUT | CATEGORY_MOUSE)));
    assert!(!key.is_in_category(EventCategory::from_bits(CATEGORY_MOUSE)));
    assert!(!key.is_in_category(EventCategory::empty()));
    let click = RGEvent::MouseButtonPressed { button: 1 };
    assert!(click.is_in_category(EventCategory::from_bits(CATEGORY_MOUSE_BUTTON)));
    assert!(!RGEvent::WindowClose.is_in_category(EventCategory::from_bits(CATEGORY_INPUT)));
    assert!(RGEvent::AppTick.is_in_category(EventCategory::from_bits(CATEGORY_APPLICATION)));
}

#[test]
fn unknown_is_in_no_category() {
    for mask in 1u8..=255 {
        assert!(!RGEvent::Unknown.is_in_category(EventCategory::from_bits(mask)));
    }
}

#[test]
fn category_union_and_intersection() {
    let a = EventCategory::from_bits(CATEGORY_MOUSE);
    let b = EventCategory::from_bits(CATEGORY_KEYBOARD);
    let u = a.union(b);
    assert_eq!(u.bits, 12);
    assert!(u.intersects(a));
    assert!(!a.intersects(b));
}

#[test]
fn kinds_have_names_and_indices() {
    let kinds: Vec<EventType> = all_kinds().iter().map(|e| e.get_type()).collect();
    for (i, k) in kinds.iter().enumerate() {
        assert_eq!(k.index(), i);
    }
    assert_eq!(kinds.len(), EVENT_TYPE_COUNT);
    assert_eq!(EventType::MouseButtonReleased.name(), "MouseButtonReleased");
    assert_eq!(Event::new(RGEvent::KeyPressed { key: 1, repeat: true }).describe(), "KeyPressed");
}

#[test]
fn native_notifications_map_to_events() {
    let cases = vec![
        (NativeEvent::Key { key: 32, action: InputAction::Press }, RGEvent::KeyPressed { key: 32, repeat: false }),
        (NativeEvent::Key { key: 32, action: InputAction::Repeat }, RGEvent::KeyPressed { key: 32, repeat: true }),
        (NativeEvent::Key { key: 32, action: InputAction::Release }, RGEvent::KeyReleased { key: 32 }),
        (NativeEvent::MouseButton { button: 2, action: InputAction::Press }, RGEvent::MouseButtonPressed { button: 2 }),
        (NativeEvent::MouseButton { button: 2, action: InputAction::Repeat }, RGEvent::MouseButtonPressed { button: 2 }),
        (NativeEvent::MouseButton { button: 2, action: InputAction::Release }, RGEvent::MouseButtonReleased { button: 2 }),
        (NativeEvent::CursorPos { x_bits: 7, y_bits: 8 }, RGEvent::MouseMoved { x_bits: 7, y_bits: 8 }),
        (NativeEvent::Scroll { x_bits: 3, y_bits: 4 }, RGEvent::MouseScrolled { x_offset_bits: 3, y_offset_bits: 4 }),
        (NativeEvent::Pos { x: -5, y: 9 }, RGEvent::WindowMoved { x: -5, y: 9 }),
        (NativeEvent::Size { width: 1280, height: 720 }, RGEvent::WindowResize { width: 1280, height: 720 }),
        (NativeEvent::Focus { focused: true }, RGEvent::WindowFocus),
        (NativeEvent::Focus { focused: false }, RGEvent::WindowLostFocus),
        (NativeEvent::Close, RGEvent::WindowClose),
        (NativeEvent::Other, RGEvent::Unknown),
    ];
    for (native, expected) in cases {
        assert_eq!(RGEvent::from_native(native), expected);
        let event = Event::from_native(native);
        assert_eq!(event.payload(), expected);
        assert!(!event.is_handled());
    }
    assert_eq!(Event::from_native(NativeEvent::Other).get_category().bits, 0);
}

#[test]
fn handled_flag_only_latches_on() {
    let mut event = Event::new(RGEvent::WindowFocus);
    assert!(!event.is_handled());
    event.mark_handled();
    assert!(event.is_handled());
    event.mark_handled();
    assert!(event.is_handled());
    assert_eq!(event.get_type(), EventType::WindowFocus);
    assert!(event.is_in_category(EventCategory::from_bits(CATEGORY_APPLICATION)));
}

#[test]
fn dispatcher_keeps_last_handler_per_kind() {
    let mut d: EventDispatcher<&'static str> = EventDispatcher::new();
    assert!(d.dispatch(&RGEvent::WindowClose).is_none());
    d.register(EventType::WindowClose, "first");
    d.register(EventType::WindowClose, "second");
    d.register(EventType::KeyPressed, "key");
    assert_eq!(d.dispatch(&RGEvent::WindowClose), Some(&"second"));
    assert_eq!(d.dispatch(&RGEvent::KeyPressed { key: 1, repeat: false }), Some(&"key"));
    assert!(d.dispatch(&RGEvent::KeyReleased { key: 1 }).is_none());
    assert_eq!(d.handler(EventType::KeyPressed), Some(&"key"));
    assert!(d.handler(EventType::Unknown).is_none());
}

#[test]
fn window_data_tracks_size_and_vsync() {
    let mut data = WindowData::new("Game Engine", 1280, 720);
    assert_eq!(data.title(), "Game Engine");
    assert_eq!((data.width(), data.height()), (1280, 720));
    assert!(data.is_vsync());
    data.set_vsync(false);
    assert!(!data.is_vsync());
    data.on_native_event(&NativeEvent::Size { width: 640, height: 480 });
    assert_eq!((data.width(), data.height()), (640, 480));
    data.on_native_event(&NativeEvent::Pos { x: 1, y: 2 });
    assert_eq!((data.width(), data.height()), (640, 480));
}

#[test]
fn ui_input_follows_buttons_keys_cursor_and_wheel() {
    let mut ui = UiInput::new();
    assert_eq!(ui.mouse_down().len(), MOUSE_BUTTON_COUNT);
    assert_eq!(ui.keys_down().len(), KEY_COUNT);
    ui.on_event(&RGEvent::MouseButtonPressed { button: 1 });
    assert_eq!(ui.mouse_down(), &vec![false, true, false, false, false]);
    ui.on_event(&RGEvent::MouseButtonPressed { button: 6 });
    assert_eq!(ui.mouse_down(), &vec![true, true, false, false, false]);
    ui.on_event(&RGEvent::MouseButtonReleased { button: 1 });
    assert_eq!(ui.mouse_down(), &vec![true, false, false, false, false]);
    ui.on_event(&RGEvent::KeyPressed { key: 65, repeat: false });
    assert!(ui.keys_down()[65]);
    ui.on_event(&RGEvent::KeyReleased { key: 65 });
    assert!(!ui.keys_down()[65]);
    ui.on_event(&RGEvent::KeyPressed { key: -1, repeat: false });
    ui.on_event(&RGEvent::KeyPressed { key: 512, repeat: true });
    assert!(ui.keys_down().iter().all(|k| !k));
    ui.on_event(&RGEvent::MouseMoved { x_bits: 3.0f64.to_bits(), y_bits: 4.0f64.to_bits() });
    assert_eq!(ui.mouse_pos_bits(), (3.0f64.to_bits(), 4.0f64.to_bits()));
    ui.on_event(&RGEvent::MouseScrolled { x_offset_bits: 0, y_offset_bits: (-1.0f64).to_bits() });
    assert_eq!(f64::from_bits(ui.wheel_bits()), -1.0);
    ui.on_event(&RGEvent::WindowClose);
    assert_eq!(f64::from_bits(ui.wheel_bits()), -1.0);
}
