//! Input events: what a backend reports, and what the library hands on.

use vstd::prelude::*;

verus! {

/// A key of the keyboard, named by the number that the backend gives to its
/// position on the keyboard.
#[derive(Clone, Copy, Debug, PartialEq, Eq, Hash, Structural)]
pub struct Key {
    pub code: i32,
}

/// A button of the mouse.
#[derive(Clone, Copy, Debug, PartialEq, Eq, Hash, Structural)]
pub enum MouseButton {
    Unknown,
    Left,
    Middle,
    Right,
    X1,
    X2,
}

/// Event is an enumeration of the effects that a user can have on a running
/// Window.
#[derive(Clone, Copy, Debug, PartialEq, Eq, Structural)]
pub enum Event {
    /// Keyboard is either a keypress or a keyrelease. The `is_down` bool tells
    /// you which.
    Keyboard { is_down: bool, key: Key },
    /// Mouse can be either a click or a click release. The position is that of
    /// the mouse at the time of the click; the mouse may have moved since.
    Mouse { is_down: bool, button: MouseButton, x: i32, y: i32 },
    /// The user has signaled to the OS that the application should be killed.
    ///
    /// A Window handles this case itself and never queues it.
    Quit,
}

/// An input event as the backend reports it, reduced to what the library
/// reads. A key event carries no key where the backend could not resolve one.
#[derive(Clone, Copy, Debug, PartialEq, Eq)]
pub enum NativeEvent {
    Quit { timestamp: u32 },
    KeyDown { timestamp: u32, scancode: Option<Key>, repeat: bool },
    KeyUp { timestamp: u32, scancode: Option<Key>, repeat: bool },
    MouseButtonDown { timestamp: u32, mouse_btn: MouseButton, clicks: u8, x: i32, y: i32 },
    MouseButtonUp { timestamp: u32, mouse_btn: MouseButton, clicks: u8, x: i32, y: i32 },
    /// Any other kind of event: motion, window changes, text input and so on.
    Other { timestamp: u32 },
}

/// The event that a native event stands for, if any.
pub open spec fn translate(e: NativeEvent) -> Option<Event> {
    match e {
        NativeEvent::Quit { .. } => Some(Event::Quit),
        NativeEvent::KeyDown { scancode: Some(key), .. } => Some(
            Event::Keyboard { is_down: true, key },
        ),
        NativeEvent::KeyUp { scancode: Some(key), .. } => Some(
            Event::Keyboard { is_down: false, key },
        ),
        NativeEvent::MouseButtonDown { mouse_btn, x, y, .. } => Some(
            Event::Mouse { is_down: true, button: mouse_btn, x, y },
        ),
        NativeEvent::MouseButtonUp { mouse_btn, x, y, .. } => Some(
            Event::Mouse { is_down: false, button: mouse_btn, x, y },
        ),
        _ => None,
    }
}

impl Event {
    /// Translate a native event. `None` is an ordinary answer: the event is of
    /// no kind that the library hands on, and the caller drops it.
    pub fn from_sdl2_event(e: NativeEvent) -> (event: Option<Event>)
        ensures
            event == translate(e),
            e is Quit ==> event == Some(Event::Quit),
            e matches NativeEvent::KeyDown { scancode: Some(k), .. } ==> event == Some(
                Event::Keyboard { is_down: true, key: k },
            ),
            e matches NativeEvent::KeyUp { scancode: Some(k), .. } ==> event == Some(
                Event::Keyboard { is_down: false, key: k },
            ),
            e matches NativeEvent::MouseButtonDown { mouse_btn, x, y, .. } ==> event == Some(
                Event::Mouse { is_down: true, button: mouse_btn, x, y },
            ),
            e matches NativeEvent::MouseButtonUp { mouse_btn, x, y, .. } ==> event == Some(
                Event::Mouse { is_down: false, button: mouse_btn, x, y },
            ),
            e matches NativeEvent::KeyDown { scancode: None, .. } ==> event is None,
            e matches NativeEvent::KeyUp { scancode: None, .. } ==> event is None,
            e is Other ==> event is None,
    {
        match e {
            NativeEvent::Quit { .. } => Some(Event::Quit),
            NativeEvent::KeyDown { scancode: Some(key), .. } => Some(
                Event::Keyboard { is_down: true, key },
            ),
            NativeEvent::KeyUp { scancode: Some(key), .. } => Some(
                Event::Keyboard { is_down: false, key },
            ),
            NativeEvent::MouseButtonDown { mouse_btn, x, y, .. } => Some(
                Event::Mouse { is_down: true, button: mouse_btn, x, y },
            ),
            NativeEvent::MouseButtonUp { mouse_btn, x, y, .. } => Some(
                Event::Mouse { is_down: false, button: mouse_btn, x, y },
            ),
            _ => None,
        }
    }
}

} // verus!
