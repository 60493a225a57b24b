//! The window: its running state, its event queue, its frame pacing and its
//! foreground color.
//!
//! A frame is driven in steps. The host tells the window what its backend has
//! just reported, and the window answers with what the backend is to do next:
//!
//! 1. `Begin` is answered by `Present` while the window runs, by `Stop` once
//!    it is stopped.
//! 2. After presenting, and after every sleep, the host reads the clock and
//!    hands in `Ticks`. The answer is `Sleep` until a frame's duration has
//!    passed since the previous frame, then `Poll`.
//! 3. The host polls one native event and hands in `Polled`. Each event is
//!    answered by `Poll` again; `Polled(None)`, the backend having no more, by
//!    `Done`.
//!
//! No frame is skipped to catch up after a slow one: the rate is capped, not
//! held.

use crate::draw::{Color, DrawCommand, Image};
use crate::event::{translate, Event, Key, MouseButton, NativeEvent};
use crate::font::Font;
use crate::queue::EventQueue;
use crate::shape::{Point, Rect};
use crate::text::{cursor_fits, glyph_draws, layout_text};
use vstd::prelude::*;

verus! {

/// The duration of a frame in ticks: a sixtieth of a second, in whole
/// milliseconds.
pub const TARGET_TICKS_PER_FRAME: u32 = 16;

/// How long the window sleeps at a time while it waits for a frame to end.
pub const SLEEP_TICKS: u32 = 5;

/// What the host reports to the window.
#[derive(Clone, Copy, Debug, PartialEq, Eq)]
pub enum FrameInput {
    /// The application asks for the next frame.
    Begin,
    /// The clock's tick count, read just now.
    Ticks(u32),
    /// What one poll of the backend gave: an event, or none where none is
    /// pending.
    Polled(Option<NativeEvent>),
}

/// What the window asks of the host.
#[derive(Clone, Copy, Debug, PartialEq, Eq, Structural)]
pub enum FrameAction {
    /// The window is stopped: do nothing, and tell the application to end.
    Stop,
    /// Show what was drawn, then read the clock.
    Present,
    /// Sleep for this many ticks, then read the clock.
    Sleep(u32),
    /// Poll the backend for one pending event.
    Poll,
    /// The frame is complete: tell the application to go on.
    Done,
}

/// A window as contracts see it.
pub struct WindowView {
    /// Whether the window runs. Once false it stays false.
    pub running: bool,
    /// The events that wait, oldest first.
    pub events: Seq<Event>,
    pub target_ticks_per_frame: u32,
    pub ticks_at_previous_frame: u32,
    pub foreground_color: Color,
    /// The glyph map of the window's font.
    pub glyphs: Map<char, Rect>,
}

/// The ticks from `mark` to `now` on a clock whose count wraps around.
pub open spec fn elapsed_ticks(mark: u32, now: u32) -> int {
    if now >= mark {
        now - mark
    } else {
        now - mark + 0x1_0000_0000
    }
}

/// The window after the clock was read as `now`, and the answer.
pub open spec fn paced(w: WindowView, now: u32) -> (WindowView, FrameAction) {
    if elapsed_ticks(w.ticks_at_previous_frame, now) < w.target_ticks_per_frame {
        (w, FrameAction::Sleep(SLEEP_TICKS))
    } else {
        (WindowView { ticks_at_previous_frame: now, ..w }, FrameAction::Poll)
    }
}

/// The window after the native event `e` arrived: a quit stops it and is not
/// queued, any other event that translates is queued, the rest is dropped.
pub open spec fn received(w: WindowView, e: NativeEvent) -> WindowView {
    match translate(e) {
        Some(Event::Quit) => WindowView { running: false, ..w },
        Some(event) => WindowView { events: w.events.push(event), ..w },
        None => w,
    }
}

/// One step of a frame: the window after `input`, and the answer.
pub open spec fn step(w: WindowView, input: FrameInput) -> (WindowView, FrameAction) {
    match input {
        FrameInput::Begin => (
            w,
            if w.running {
                FrameAction::Present
            } else {
                FrameAction::Stop
            },
        ),
        FrameInput::Ticks(now) => paced(w, now),
        FrameInput::Polled(None) => (w, FrameAction::Done),
        FrameInput::Polled(Some(e)) => (received(w, e), FrameAction::Poll),
    }
}

/// The window after the inputs of `inputs`, first to last.
pub open spec fn after_inputs(w: WindowView, inputs: Seq<FrameInput>) -> WindowView
    decreases inputs.len(),
{
    if inputs.len() == 0 {
        w
    } else {
        step(after_inputs(w, inputs.drop_last()), inputs.last()).0
    }
}

/// The events that the polls among `inputs` put into the queue, in the order
/// of the polls.
pub open spec fn queued_by(inputs: Seq<FrameInput>) -> Seq<Event>
    decreases inputs.len(),
{
    if inputs.len() == 0 {
        Seq::empty()
    } else {
        let earlier = queued_by(inputs.drop_last());
        match inputs.last() {
            FrameInput::Polled(Some(e)) => match translate(e) {
                Some(Event::Quit) => earlier,
                Some(event) => earlier.push(event),
                None => earlier,
            },
            _ => earlier,
        }
    }
}

/// The window stopped, all else as it was.
pub open spec fn stopped(w: WindowView) -> WindowView {
    WindowView { running: false, ..w }
}

/// No event of `events` is a quit.
pub open spec fn no_quit(events: Seq<Event>) -> bool {
    forall|i: int| 0 <= i < events.len() ==> events[i] != Event::Quit
}

/// A Window keeps what the library knows of a window on the screen: whether
/// it runs, the events that wait for the application, the time of the
/// previous frame, the foreground color and the font.
///
/// A Window has a draw color at all times, and that color is applied to every
/// operation.
pub struct Window {
    running: bool,
    event_queue: EventQueue,
    target_ticks_per_frame: u32,
    ticks_at_previous_frame: u32,
    foreground_color: Color,
    font: Font,
}

impl View for Window {
    type V = WindowView;

    closed spec fn view(&self) -> WindowView {
        WindowView {
            running: self.running,
            events: self.event_queue@,
            target_ticks_per_frame: self.target_ticks_per_frame,
            ticks_at_previous_frame: self.ticks_at_previous_frame,
            foreground_color: self.foreground_color,
            glyphs: self.font@,
        }
    }
}

impl Window {
    /// A new running window with `font` as its font. `ticks_now` is the
    /// clock's tick count at this moment: the first frame is paced from it.
    pub fn new(ticks_now: u32, font: Font) -> (window: Window)
        ensures
            window@ == (WindowView {
                running: true,
                events: Seq::empty(),
                target_ticks_per_frame: TARGET_TICKS_PER_FRAME,
                ticks_at_previous_frame: ticks_now,
                foreground_color: Color { r: 0, g: 0, b: 0, a: 255 },
                glyphs: font@,
            }),
    {
        Window {
            running: true,
            event_queue: EventQueue::new(),
            target_ticks_per_frame: TARGET_TICKS_PER_FRAME,
            ticks_at_previous_frame: ticks_now,
            foreground_color: Color { r: 0, g: 0, b: 0, a: 255 },
            font,
        }
    }

    /// Take one step of a frame: see the head of this file for the protocol.
    ///
    /// A stopped window answers `Begin` by `Stop` and changes nothing. A quit
    /// event stops the window during the frame in which it is polled; that
    /// frame still runs to its `Done`.
    pub fn next_frame(&mut self, input: FrameInput) -> (action: FrameAction)
        ensures
            (final(self)@, action) == step(old(self)@, input),
            no_quit(old(self)@.events) ==> no_quit(final(self)@.events),
            !old(self)@.running ==> !final(self)@.running,
            input is Begin && !old(self)@.running ==> action is Stop && final(self)@ == old(
                self,
            )@,
            action is Poll && input is Ticks ==> elapsed_ticks(
                old(self)@.ticks_at_previous_frame,
                input->Ticks_0,
            ) >= old(self)@.target_ticks_per_frame,
    {
        match input {
            FrameInput::Begin => {
                if self.running {
                    FrameAction::Present
                } else {
                    FrameAction::Stop
                }
            },
            FrameInput::Ticks(current_ticks) => {
                if current_ticks.wrapping_sub(self.ticks_at_previous_frame)
                    < self.target_ticks_per_frame {
                    FrameAction::Sleep(SLEEP_TICKS)
                } else {
                    self.ticks_at_previous_frame = current_ticks;
                    FrameAction::Poll
                }
            },
            FrameInput::Polled(None) => FrameAction::Done,
            FrameInput::Polled(Some(native)) => {
                match Event::from_sdl2_event(native) {
                    Some(Event::Quit) => self.quit(),
                    Some(e) => self.event_queue.push(e),
                    None => (),
                }
                FrameAction::Poll
            },
        }
    }

    /// Return true when there is an event waiting in the queue for
    /// processing.
    pub fn has_event(&self) -> (waiting: bool)
        ensures
            waiting == (self@.events.len() > 0),
    {
        self.event_queue.has_event()
    }

    /// Get the next event from the queue: the one that has waited longest.
    /// It is never `Event::Quit`, since a frame queues none.
    ///
    /// The queue must hold an event: call `has_event()` to find out.
    pub fn next_event(&mut self) -> (event: Event)
        requires
            old(self)@.events.len() > 0,
        ensures
            event == old(self)@.events.first(),
            final(self)@ == (WindowView { events: old(self)@.events.drop_first(), ..old(self)@ }),
            no_quit(old(self)@.events) ==> event != Event::Quit && no_quit(final(self)@.events),
    {
        self.event_queue.pop()
    }

    /// Return true if the key is currently pressed, `pressed` being the keys
    /// that the backend reports as held down at this moment.
    pub fn is_key_down(&self, key: Key, pressed: &[Key]) -> (down: bool)
        ensures
            down == pressed@.contains(key),
    {
        let mut i: usize = 0;
        while i < pressed.len()
            invariant
                i <= pressed@.len(),
                forall|k: int| 0 <= k < i ==> pressed@[k] != key,
            decreases pressed@.len() - i,
        {
            if pressed[i] == key {
                return true;
            }
            i += 1;
        }
        false
    }

    /// Return true if the specified button is down, `pressed` being the
    /// buttons that the backend reports as held down at this moment. For
    /// `MouseButton::Unknown` the answer is always false.
    pub fn is_mouse_button_down(
        &self,
        button: MouseButton,
        pressed: &[MouseButton],
    ) -> (down: bool)
        ensures
            down == (button != MouseButton::Unknown && pressed@.contains(button)),
    {
        if button == MouseButton::Unknown {
            return false;
        }
        let mut i: usize = 0;
        while i < pressed.len()
            invariant
                i <= pressed@.len(),
                button != MouseButton::Unknown,
                forall|k: int| 0 <= k < i ==> pressed@[k] != button,
            decreases pressed@.len() - i,
        {
            if pressed[i] == button {
                return true;
            }
            i += 1;
        }
        false
    }

    /// Whether the window runs.
    pub fn is_running(&self) -> (running: bool)
        ensures
            running == self@.running,
    {
        self.running
    }

    /// Stop the window. This does not end the program: it means that the
    /// next frame will not begin. Stopping a stopped window changes nothing.
    pub fn quit(&mut self)
        ensures
            final(self)@ == stopped(old(self)@),
    {
        self.running = false;
    }

    /// Windows have a color set on them at all times. This color is applied
    /// to every draw operation.
    pub fn set_color(&mut self, red: u8, green: u8, blue: u8, alpha: u8)
        ensures
            final(self)@ == (WindowView {
                foreground_color: Color { r: red, g: green, b: blue, a: alpha },
                ..old(self)@
            }),
    {
        self.foreground_color = Color { r: red, g: green, b: blue, a: alpha };
    }

    /// The current foreground color.
    pub fn color(&self) -> (color: Color)
        ensures
            color == self@.foreground_color,
    {
        self.foreground_color
    }

    /// The window's font.
    pub fn font(&self) -> (font: &Font)
        ensures
            font@ == self@.glyphs,
    {
        &self.font
    }

    pub fn draw_rect(&self, rect: Rect) -> (command: DrawCommand)
        ensures
            command == (DrawCommand::DrawRect { color: self@.foreground_color, rect }),
    {
        DrawCommand::DrawRect { color: self.foreground_color, rect }
    }

    pub fn fill_rect(&self, rect: Rect) -> (command: DrawCommand)
        ensures
            command == (DrawCommand::FillRect { color: self@.foreground_color, rect }),
    {
        DrawCommand::FillRect { color: self.foreground_color, rect }
    }

    pub fn draw_point(&self, point: Point) -> (command: DrawCommand)
        ensures
            command == (DrawCommand::DrawPoint { color: self@.foreground_color, point }),
    {
        DrawCommand::DrawPoint { color: self.foreground_color, point }
    }

    /// Draw the points of `polygon`, each as a single pixel, in their order.
    pub fn draw_polygon(&self, polygon: &Vec<Point>) -> (commands: Vec<DrawCommand>)
        ensures
            commands@.len() == polygon@.len(),
            forall|i: int|
                0 <= i < polygon@.len() ==> commands@[i] == (DrawCommand::DrawPoint {
                    color: self@.foreground_color,
                    point: polygon@[i],
                }),
    {
        let mut commands: Vec<DrawCommand> = Vec::new();
        let mut i: usize = 0;
        while i < polygon.len()
            invariant
                i <= polygon@.len(),
                commands@.len() == i,
                forall|k: int|
                    0 <= k < i ==> commands@[k] == (DrawCommand::DrawPoint {
                        color: self@.foreground_color,
                        point: polygon@[k],
                    }),
            decreases polygon@.len() - i,
        {
            commands.push(DrawCommand::DrawPoint { color: self.foreground_color, point: polygon[i] });
            i += 1;
        }
        commands
    }

    /// Display the image with its top-left corner at (x, y), in its own
    /// size, tinted by the foreground color.
    pub fn draw_image(&self, image: &Image, x: i32, y: i32) -> (command: DrawCommand)
        ensures
            command == (DrawCommand::Image {
                tint: self@.foreground_color,
                dst: Rect { x, y, w: image.width(), h: image.height() },
            }),
    {
        DrawCommand::Image {
            tint: self.foreground_color,
            dst: Rect { x, y, w: image.get_width(), h: image.get_height() },
        }
    }

    /// Write the text to the screen at (x, y), in the window's font, tinted
    /// by the foreground color.
    ///
    /// The answer is `None` exactly where the text would run past the
    /// coordinates that a `Rect` can hold; nothing is to be drawn then.
    pub fn print(&self, text: &str, x: i32, y: i32) -> (draws: Option<Vec<DrawCommand>>)
        ensures
            draws is Some <==> cursor_fits(self@.glyphs, text@, x as int, text@.len() as int),
            draws matches Some(v) ==> v@ == glyph_draws(
                self@.glyphs,
                self@.foreground_color,
                text@,
                x as int,
                y,
                text@.len() as int,
            ),
    {
        layout_text(&self.font, self.foreground_color, text, x, y)
    }

    /// Clear the screen to black. This will set the Window's draw color to
    /// (0,0,0,255).
    pub fn clear(&mut self) -> (command: DrawCommand)
        ensures
            command == (DrawCommand::Clear { color: Color { r: 0, g: 0, b: 0, a: 255 } }),
            final(self)@ == (WindowView {
                foreground_color: Color { r: 0, g: 0, b: 0, a: 255 },
                ..old(self)@
            }),
    {
        self.set_color(0, 0, 0, 255);
        DrawCommand::Clear { color: self.foreground_color }
    }
}

/// Stopped is terminal: whatever is reported to a stopped window, it stays
/// stopped, and it answers the next `Begin` by `Stop` without any change.
pub proof fn lemma_stopped_is_terminal(w: WindowView, inputs: Seq<FrameInput>)
    requires
        !w.running,
    ensures
        !after_inputs(w, inputs).running,
        step(after_inputs(w, inputs), FrameInput::Begin) == (
            after_inputs(w, inputs),
            FrameAction::Stop,
        ),
    decreases inputs.len(),
{
    if inputs.len() > 0 {
        lemma_stopped_is_terminal(w, inputs.drop_last());
    }
}

/// Stopping is idempotent: a second `quit()`, or a second quit event, leaves
/// the window as the first did.
pub proof fn lemma_quit_is_idempotent(w: WindowView, first: NativeEvent, second: NativeEvent)
    requires
        first is Quit,
        second is Quit,
    ensures
        stopped(stopped(w)) == stopped(w),
        received(w, first) == stopped(w),
        received(received(w, first), second) == received(w, first),
        received(stopped(w), second) == stopped(w),
{
}

/// A frame queues no quit: a queue without one has none after any inputs, so
/// the application never takes one from it.
pub proof fn lemma_quit_is_never_queued(w: WindowView, inputs: Seq<FrameInput>)
    requires
        no_quit(w.events),
    ensures
        no_quit(after_inputs(w, inputs).events),
    decreases inputs.len(),
{
    if inputs.len() > 0 {
        lemma_quit_is_never_queued(w, inputs.drop_last());
    }
}

/// Events wait in the order in which the backend reported them: whatever is
/// reported to a window, within one frame or over many, the events that
/// waited stay first, and those that the polls bring follow in the order of
/// the polls.
pub proof fn lemma_events_queue_in_order(w: WindowView, inputs: Seq<FrameInput>)
    ensures
        after_inputs(w, inputs).events == w.events + queued_by(inputs),
    decreases inputs.len(),
{
    if inputs.len() == 0 {
        assert(w.events + queued_by(inputs) =~= w.events);
    } else {
        lemma_events_queue_in_order(w, inputs.drop_last());
        let earlier = queued_by(inputs.drop_last());
        match inputs.last() {
            FrameInput::Polled(Some(e)) => match translate(e) {
                Some(Event::Quit) => {},
                Some(event) => {
                    assert((w.events + earlier).push(event) =~= w.events + earlier.push(event));
                },
                None => {},
            },
            _ => {},
        }
    }
}

/// Frame pacing: while the clock reports less than a frame's duration since
/// the previous frame, the window answers `Sleep` and changes nothing; at the
/// first reading that reports the duration or more it answers `Poll` and
/// takes that reading as the new mark. Control returns no earlier.
pub proof fn lemma_pacer_waits_for_the_frame(w: WindowView, readings: Seq<u32>, k: int)
    requires
        0 <= k < readings.len(),
        forall|j: int|
            0 <= j < k ==> elapsed_ticks(w.ticks_at_previous_frame, readings[j])
                < w.target_ticks_per_frame,
        elapsed_ticks(w.ticks_at_previous_frame, readings[k]) >= w.target_ticks_per_frame,
    ensures
        forall|j: int|
            0 <= j < k ==> #[trigger] step(w, FrameInput::Ticks(readings[j])) == (
                w,
                FrameAction::Sleep(SLEEP_TICKS),
            ),
        step(w, FrameInput::Ticks(readings[k])) == (
            WindowView { ticks_at_previous_frame: readings[k], ..w },
            FrameAction::Poll,
        ),
{
}

} // verus!
