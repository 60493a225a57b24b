//! A small 2D windowing toolkit: the frame loop, the event queue and the
//! bitmap-font renderer, stated as contracts and proved.
//!
//! The library decides; a backend performs. Every function here works on plain
//! values, so that a host program can feed it what its backend reports and
//! carry out what the library answers.

pub mod draw;
pub mod event;
pub mod font;
pub mod queue;
pub mod shape;
pub mod text;
pub mod util;
pub mod window;

pub use draw::{Color, DrawCommand, Image};
pub use event::{Event, Key, MouseButton, NativeEvent};
pub use font::{Font, FontError};
pub use queue::EventQueue;
pub use shape::{Point, Polygon, Rect};
pub use window::{FrameAction, FrameInput, Window};
