//! Core of a compositing display server: damage tracking, the window
//! registry with its z-order, the input router, the redraw planner and the
//! request dispatcher that clients drive through a virtual-file interface.

pub mod compositor;
pub mod damage;
pub mod dispatch;
pub mod event;
pub mod input;
pub mod path;
pub mod rect;
pub mod scheme;
pub mod window;

pub use compositor::{Layer, Pass, Span, BYTES_PER_PIXEL};
pub use damage::schedule;
pub use dispatch::{Op, Reply, Request, Response};
pub use event::{Event, EVENT_KEY, EVENT_MOUSE, EVENT_QUIT, K_F1};
pub use path::{parse_open_path, push_decimal, OpenPath};
pub use rect::Rect;
pub use scheme::{OrbitalScheme, SchemeError, CASCADE_STEP, MAX_ID};
pub use window::{Window, CLOSE_WIDTH, TITLE_HEIGHT};
