//! What can go wrong around an overlay, and what is done about each.

use vstd::prelude::*;

verus! {

/// The failures that the reminder knows.
#[derive(Clone, Copy, Debug, PartialEq, Eq, Structural)]
pub enum Fault {
    /// No display reported its size.
    SurfaceUnavailable,
    /// The overlay window could not be created.
    WindowCreationFailed,
    /// A frame could not be presented.
    PresentationFailed,
    /// The desktop notification could not be delivered.
    NotificationFailed,
}

/// What is done about a failure.
#[derive(Clone, Copy, Debug, PartialEq, Eq, Structural)]
pub enum Response {
    /// Go on with the fallback surface size.
    UseFallbackSize,
    /// Give up: without a window there is no overlay.
    AbortProcess,
    /// End the current overlay; the next break comes as scheduled.
    EndSession,
    /// Go on as if nothing had happened.
    Ignore,
}

impl Fault {
    /// The response that each failure gets.
    pub open spec fn policy(self) -> Response {
        match self {
            Fault::SurfaceUnavailable => Response::UseFallbackSize,
            Fault::WindowCreationFailed => Response::AbortProcess,
            Fault::PresentationFailed => Response::EndSession,
            Fault::NotificationFailed => Response::Ignore,
        }
    }

    /// Whether the failure ends the whole process: only a window that
    /// could not be created does.
    pub open spec fn fatal(self) -> bool {
        self == Fault::WindowCreationFailed
    }

    /// The response to this failure.
    pub fn response(self) -> (r: Response)
        ensures
            r == self.policy(),
            r == Response::AbortProcess <==> self.fatal(),
    {
        match self {
            Fault::SurfaceUnavailable => Response::UseFallbackSize,
            Fault::WindowCreationFailed => Response::AbortProcess,
            Fault::PresentationFailed => Response::EndSession,
            Fault::NotificationFailed => Response::Ignore,
        }
    }

    /// Whether the failure ends the whole process.
    pub fn is_fatal(self) -> (yes: bool)
        ensures
            yes == self.fatal(),
    {
        match self {
            Fault::WindowCreationFailed => true,
            _ => false,
        }
    }
}

} // verus!
