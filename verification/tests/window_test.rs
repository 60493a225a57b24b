use simple::font::create_font;
use simple::window::{SLEEP_TICKS, TARGET_TICKS_PER_FRAME};
use simple::{
    Color, DrawCommand, Event, Font, FrameAction, FrameInput, Image, Key, MouseButton, NativeEvent,
    Point, Rect, Window,
};

/// A font with 'a' two pixels wide at column 1 and 'b' three wide at column
/// 5, both eight high.
fn small_font() -> Font {
    let pixels = vec![0u8, 1, 1, 0, 0, 1, 1, 1, 0];
    create_font(&pixels, 1, 9, 8, "ab").unwrap()
}

/// Drive one frame as a host does: `clock` gives the readings of the tick
/// count, `pending` the native events that the backend holds. Returns what
/// the frame loop returns to the application, and the ticks slept.
fn run_frame(window: &mut Window, clock: &[u32], pending: &[NativeEvent]) -> (bool, u32) {
    let mut readings = clock.iter();
    let mut events = pending.iter();
    let mut slept: u32 = 0;
    let mut action = window.next_frame(FrameInput::Begin);
    loop {
        match action {
            FrameAction::Stop => return (false, slept),
            FrameAction::Present => {
                action = window.next_frame(FrameInput::Ticks(*readings.next().unwrap()));
            }
            FrameAction::Sleep(ticks) => {
                slept += ticks;
                action = window.next_frame(FrameInput::Ticks(*readings.next().unwrap()));
            }
            FrameAction::Poll => {
                action = window.next_frame(FrameInput::Polled(events.next().copied()));
            }
            FrameAction::Done => return (true, slept),
        }
    }
}

#[test]
fn frame_duration_is_a_sixtieth_of_a_second() {
    assert_eq!(TARGET_TICKS_PER_FRAME, 16);
    assert_eq!(SLEEP_TICKS, 5);
}

#[test]
fn first_frame_without_events() {
    let mut window = Window::new(100, small_font());
    assert!(window.is_running());
    assert!(!window.has_event());
    let (go_on, slept) = run_frame(&mut window, &[130], &[]);
    assert!(go_on);
    assert_eq!(slept, 0);
    assert!(!window.has_event());
    // The mark has advanced to 130: a reading of 145 is 15 ticks later, too early.
    assert_eq!(window.next_frame(FrameInput::Ticks(145)), FrameAction::Sleep(5));
    assert_eq!(window.next_frame(FrameInput::Ticks(146)), FrameAction::Poll);
}

#[test]
fn quit_event_stops_the_window_after_its_frame() {
    let mut window = Window::new(0, small_font());
    let (go_on, _) = run_frame(&mut window, &[16], &[NativeEvent::Quit { timestamp: 3 }]);
    assert!(go_on);
    assert!(!window.is_running());
    assert!(!window.has_event());
    let (go_on, slept) = run_frame(&mut window, &[], &[]);
    assert!(!go_on);
    assert_eq!(slept, 0);
    assert!(!window.has_event());
}

#[test]
fn events_polled_with_a_quit_are_still_queued() {
    let mut window = Window::new(0, small_font());
    let down = NativeEvent::KeyDown { timestamp: 1, scancode: Some(Key { code: 5 }), repeat: false };
    let up = NativeEvent::KeyUp { timestamp: 2, scancode: Some(Key { code: 5 }), repeat: false };
    let quit = NativeEvent::Quit { timestamp: 2 };
    let (go_on, _) = run_frame(&mut window, &[20], &[down, quit, up]);
    assert!(go_on);
    assert!(!window.is_running());
    assert_eq!(window.next_event(), Event::Keyboard { is_down: true, key: Key { code: 5 } });
    assert_eq!(window.next_event(), Event::Keyboard { is_down: false, key: Key { code: 5 } });
    assert!(!window.has_event());
}

#[test]
fn quit_is_idempotent() {
    let mut window = Window::new(0, small_font());
    window.quit();
    assert!(!window.is_running());
    window.quit();
    assert!(!window.is_running());
    for _ in 0..3 {
        assert_eq!(window.next_frame(FrameInput::Begin), FrameAction::Stop);
        assert!(!window.is_running());
    }
}

#[test]
fn two_quit_events_across_frames() {
    let mut window = Window::new(0, small_font());
    let quit = NativeEvent::Quit { timestamp: 0 };
    assert_eq!(window.next_frame(FrameInput::Polled(Some(quit))), FrameAction::Poll);
    assert!(!window.is_running());
    assert_eq!(window.next_frame(FrameInput::Polled(Some(quit))), FrameAction::Poll);
    assert!(!window.is_running());
    assert!(!window.has_event());
    assert_eq!(window.next_frame(FrameInput::Begin), FrameAction::Stop);
    assert_eq!(window.next_frame(FrameInput::Begin), FrameAction::Stop);
}

#[test]
fn stopped_window_stays_stopped_whatever_arrives() {
    let mut window = Window::new(0, small_font());
    window.quit();
    window.next_frame(FrameInput::Ticks(1000));
    window.next_frame(FrameInput::Polled(None));
    window.next_frame(FrameInput::Polled(Some(NativeEvent::Other { timestamp: 0 })));
    window.set_color(1, 2, 3, 4);
    window.clear();
    assert!(!window.is_running());
    assert_eq!(window.next_frame(FrameInput::Begin), FrameAction::Stop);
}

#[test]
fn pacer_sleeps_until_the_frame_has_passed() {
    let mut window = Window::new(1000, small_font());
    // 1003, 1008 and 1015 are less than 16 ticks after 1000; 1016 is not.
    let (go_on, slept) = run_frame(&mut window, &[1003, 1008, 1015, 1016, 5000], &[]);
    assert!(go_on);
    assert_eq!(slept, 15);
    // The new mark is 1016, not 5000: the frame ended at the first reading that was due.
    assert_eq!(window.next_frame(FrameInput::Ticks(1031)), FrameAction::Sleep(5));
    assert_eq!(window.next_frame(FrameInput::Ticks(1032)), FrameAction::Poll);
}

#[test]
fn pacer_does_not_catch_up_after_a_slow_frame() {
    let mut window = Window::new(0, small_font());
    let (_, slept) = run_frame(&mut window, &[100], &[]);
    assert_eq!(slept, 0);
    // The next frame is paced from 100, whole: no frame is skipped or shortened.
    let (_, slept) = run_frame(&mut window, &[101, 115, 116], &[]);
    assert_eq!(slept, 10);
}

#[test]
fn pacer_follows_a_clock_that_wraps() {
    let mut window = Window::new(u32::MAX - 5, small_font());
    assert_eq!(window.next_frame(FrameInput::Ticks(u32::MAX)), FrameAction::Sleep(5));
    // 6 ticks to the wrap and 9 after it: 15 in all.
    assert_eq!(window.next_frame(FrameInput::Ticks(9)), FrameAction::Sleep(5));
    assert_eq!(window.next_frame(FrameInput::Ticks(10)), FrameAction::Poll);
    assert_eq!(window.next_frame(FrameInput::Ticks(25)), FrameAction::Sleep(5));
    assert_eq!(window.next_frame(FrameInput::Ticks(26)), FrameAction::Poll);
}

#[test]
fn begin_presents_while_running() {
    let mut window = Window::new(0, small_font());
    assert_eq!(window.next_frame(FrameInput::Begin), FrameAction::Present);
    assert_eq!(window.next_frame(FrameInput::Polled(None)), FrameAction::Done);
    assert!(window.is_running());
}

#[test]
fn events_come_out_in_the_order_of_arrival_across_frames() {
    let mut window = Window::new(0, small_font());
    let key = |code: i32, down: bool| {
        if down {
            NativeEvent::KeyDown { timestamp: 0, scancode: Some(Key { code }), repeat: false }
        } else {
            NativeEvent::KeyUp { timestamp: 0, scancode: Some(Key { code }), repeat: false }
        }
    };
    let click =
        NativeEvent::MouseButtonDown { timestamp: 0, mouse_btn: MouseButton::Left, clicks: 1, x: 7, y: 8 };
    let unknown = NativeEvent::KeyDown { timestamp: 0, scancode: None, repeat: false };
    let other = NativeEvent::Other { timestamp: 0 };
    run_frame(&mut window, &[16], &[key(1, true), other, key(2, true), unknown]);
    run_frame(&mut window, &[32], &[click, key(1, false)]);
    assert!(window.has_event());
    assert_eq!(window.next_event(), Event::Keyboard { is_down: true, key: Key { code: 1 } });
    assert_eq!(window.next_event(), Event::Keyboard { is_down: true, key: Key { code: 2 } });
    assert_eq!(
        window.next_event(),
        Event::Mouse { is_down: true, button: MouseButton::Left, x: 7, y: 8 }
    );
    assert_eq!(window.next_event(), Event::Keyboard { is_down: false, key: Key { code: 1 } });
    assert!(!window.has_event());
}

#[test]
fn new_window_draws_in_opaque_black() {
    let window = Window::new(0, small_font());
    assert_eq!(window.color(), Color { r: 0, g: 0, b: 0, a: 255 });
    assert_eq!(window.font().len(), 2);
}

#[test]
fn shapes_carry_the_foreground_color() {
    let mut window = Window::new(0, small_font());
    window.set_color(255, 128, 0, 77);
    let color = Color { r: 255, g: 128, b: 0, a: 77 };
    assert_eq!(window.color(), color);
    let rect = Rect::new(1, 2, 3, 4);
    assert_eq!(rect, Rect { x: 1, y: 2, w: 3, h: 4 });
    assert_eq!(window.draw_rect(rect), DrawCommand::DrawRect { color, rect });
    assert_eq!(window.fill_rect(rect), DrawCommand::FillRect { color, rect });
    let point = Point::new(-5, 6);
    assert_eq!(point, Point { x: -5, y: 6 });
    assert_eq!(window.draw_point(point), DrawCommand::DrawPoint { color, point });
    let polygon = vec![Point::new(0, 0), Point::new(4, 0), Point::new(4, 3)];
    assert_eq!(
        window.draw_polygon(&polygon),
        vec![
            DrawCommand::DrawPoint { color, point: Point { x: 0, y: 0 } },
            DrawCommand::DrawPoint { color, point: Point { x: 4, y: 0 } },
            DrawCommand::DrawPoint { color, point: Point { x: 4, y: 3 } },
        ]
    );
    assert_eq!(window.draw_polygon(&Vec::new()), Vec::new());
}

#[test]
fn image_is_drawn_in_its_own_size() {
    let mut window = Window::new(0, small_font());
    window.set_color(9, 8, 7, 6);
    let image = Image::new(64, 48);
    assert_eq!(image.get_width(), 64);
    assert_eq!(image.get_height(), 48);
    assert_eq!(
        window.draw_image(&image, 10, -20),
        DrawCommand::Image {
            tint: Color { r: 9, g: 8, b: 7, a: 6 },
            dst: Rect { x: 10, y: -20, w: 64, h: 48 },
        }
    );
}

#[test]
fn clear_resets_the_color_to_black() {
    let mut window = Window::new(0, small_font());
    window.set_color(200, 100, 50, 25);
    let black = Color { r: 0, g: 0, b: 0, a: 255 };
    assert_eq!(window.clear(), DrawCommand::Clear { color: black });
    assert_eq!(window.color(), black);
}

#[test]
fn print_advances_by_each_glyph_width() {
    let mut window = Window::new(0, small_font());
    window.set_color(255, 255, 255, 255);
    let tint = Color { r: 255, g: 255, b: 255, a: 255 };
    let a = Rect { x: 1, y: 0, w: 2, h: 8 };
    let b = Rect { x: 5, y: 0, w: 3, h: 8 };
    assert_eq!(
        window.print("aba", 32, 64),
        Some(vec![
            DrawCommand::Glyph { tint, src: a, dst: Rect { x: 32, y: 64, w: 2, h: 8 } },
            DrawCommand::Glyph { tint, src: b, dst: Rect { x: 34, y: 64, w: 3, h: 8 } },
            DrawCommand::Glyph { tint, src: a, dst: Rect { x: 37, y: 64, w: 2, h: 8 } },
        ])
    );
    assert_eq!(window.print("", 32, 64), Some(Vec::new()));
}

#[test]
fn print_skips_characters_without_a_glyph() {
    let window = Window::new(0, small_font());
    let tint = Color { r: 0, g: 0, b: 0, a: 255 };
    let a = Rect { x: 1, y: 0, w: 2, h: 8 };
    let b = Rect { x: 5, y: 0, w: 3, h: 8 };
    let expected = Some(vec![
        DrawCommand::Glyph { tint, src: a, dst: Rect { x: -1, y: 0, w: 2, h: 8 } },
        DrawCommand::Glyph { tint, src: b, dst: Rect { x: 1, y: 0, w: 3, h: 8 } },
    ]);
    assert_eq!(window.print("ab", -1, 0), expected);
    assert_eq!(window.print("a?b", -1, 0), expected);
    assert_eq!(window.print("??a b!", -1, 0), expected);
    assert_eq!(window.print("?!", -1, 0), Some(Vec::new()));
}

#[test]
fn print_refuses_text_that_leaves_the_coordinates() {
    let window = Window::new(0, small_font());
    // 'a' is 2 wide: from MAX - 2 the cursor ends on MAX, from MAX - 1 it would pass it.
    assert!(window.print("a", i32::MAX - 2, 0).is_some());
    assert_eq!(window.print("a", i32::MAX - 1, 0), None);
    assert_eq!(window.print("ab", i32::MAX - 4, 0), None);
    assert!(window.print("ab", i32::MAX - 5, 0).is_some());
    assert!(window.print("??", i32::MAX, 0).is_some());
}

#[test]
fn key_is_down_when_the_backend_reports_it_pressed() {
    let window = Window::new(0, small_font());
    let pressed = [Key { code: 4 }, Key { code: 44 }, Key { code: 225 }];
    assert!(window.is_key_down(Key { code: 4 }, &pressed));
    assert!(window.is_key_down(Key { code: 225 }, &pressed));
    assert!(!window.is_key_down(Key { code: 5 }, &pressed));
    assert!(!window.is_key_down(Key { code: 4 }, &[]));
}

#[test]
fn mouse_button_is_down_when_the_backend_reports_it_pressed() {
    let window = Window::new(0, small_font());
    let pressed = [MouseButton::Left, MouseButton::X1];
    assert!(window.is_mouse_button_down(MouseButton::Left, &pressed));
    assert!(window.is_mouse_button_down(MouseButton::X1, &pressed));
    assert!(!window.is_mouse_button_down(MouseButton::Right, &pressed));
    assert!(!window.is_mouse_button_down(MouseButton::Left, &[]));
}

#[test]
fn unknown_mouse_button_is_never_down() {
    let window = Window::new(0, small_font());
    assert!(!window.is_mouse_button_down(MouseButton::Unknown, &[MouseButton::Unknown]));
    assert!(!window.is_mouse_button_down(MouseButton::Unknown, &[]));
}
