//! A periodic eye-rest reminder: the timed fullscreen overlay that draws a
//! moving marker, and the scheduler that decides when a break is due.
//!
//! Nothing here opens a window, sleeps or reads a clock. The overlay
//! session and the scheduler are state machines: the caller tells them
//! what happened and what the clock reads, and does what they answer.

pub mod fault;
pub mod frame;
pub mod scheduler;
pub mod session;
pub mod settings;
pub mod trajectory;

pub use fault::{Fault, Response};
pub use frame::{draw_frame, Marker};
pub use scheduler::{CyclePhase, Directive, IdleScheduler, Signal};
pub use session::{Action, Event, ExitCause, Input, OverlaySession, Phase};
pub use settings::{target_surface_size, Rgba, Settings, SurfaceSize};
pub use trajectory::marker_position;
