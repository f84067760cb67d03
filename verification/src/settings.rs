//! The named parameters of a reminder, and the surface it draws on.

use vstd::prelude::*;

verus! {

/// Seconds between the end of one break and the start of the next.
pub const IDLE_INTERVAL_SECS: u64 = 1800;

/// Seconds that the overlay stays up.
pub const OVERLAY_DURATION_SECS: u64 = 25;

/// Radius of the marker disk, in pixels.
pub const MARKER_RADIUS: u32 = 30;

/// Width of the surface that is assumed when no display reports its size.
pub const FALLBACK_WIDTH: u32 = 800;

/// Height of the surface that is assumed when no display reports its size.
pub const FALLBACK_HEIGHT: u32 = 600;

/// One colour: red, green, blue and opacity, in the order in which a frame
/// stores them.
#[derive(Clone, Copy, Debug, PartialEq, Eq, Structural)]
pub struct Rgba {
    pub r: u8,
    pub g: u8,
    pub b: u8,
    pub a: u8,
}

impl Rgba {
    /// The byte that a pixel of this colour holds at `offset` (0 to 3).
    pub open spec fn channel(self, offset: int) -> u8 {
        if offset == 0 {
            self.r
        } else if offset == 1 {
            self.g
        } else if offset == 2 {
            self.b
        } else {
            self.a
        }
    }

    /// Opaque black, the default background.
    pub open spec fn opaque_black() -> Rgba {
        Rgba { r: 0, g: 0, b: 0, a: 255 }
    }

    /// Opaque white, the default highlight.
    pub open spec fn opaque_white() -> Rgba {
        Rgba { r: 255, g: 255, b: 255, a: 255 }
    }

    /// Opaque black.
    pub fn black() -> (c: Rgba)
        ensures
            c == Rgba::opaque_black(),
    {
        Rgba { r: 0, g: 0, b: 0, a: 255 }
    }

    /// Opaque white.
    pub fn white() -> (c: Rgba)
        ensures
            c == Rgba::opaque_white(),
    {
        Rgba { r: 255, g: 255, b: 255, a: 255 }
    }
}

/// Everything about a reminder that a caller may override.
#[derive(Clone, Copy, Debug, PartialEq, Eq, Structural)]
pub struct Settings {
    /// Seconds between breaks.
    pub idle_interval: u64,
    /// Seconds the overlay stays up.
    pub overlay_duration: u64,
    /// Radius of the marker disk, in pixels; 0 draws a single pixel.
    pub marker_radius: u32,
    /// Colour of the marker.
    pub marker_color: Rgba,
    /// Colour that every frame is cleared to.
    pub background_color: Rgba,
}

impl Settings {
    /// The settings of a reminder that overrides nothing: a break of 25
    /// seconds every 30 minutes, a white disk of radius 30 on black.
    pub open spec fn standard() -> Settings {
        Settings {
            idle_interval: 1800,
            overlay_duration: 25,
            marker_radius: 30,
            marker_color: Rgba::opaque_white(),
            background_color: Rgba::opaque_black(),
        }
    }

    /// The idle interval in milliseconds.
    pub open spec fn idle_interval_ms(self) -> int {
        self.idle_interval * 1000
    }

    /// The overlay duration in milliseconds.
    pub open spec fn overlay_duration_ms(self) -> int {
        self.overlay_duration * 1000
    }
}

impl Default for Settings {
    fn default() -> (s: Settings)
        ensures
            s == Settings::standard(),
    {
        Settings {
            idle_interval: IDLE_INTERVAL_SECS,
            overlay_duration: OVERLAY_DURATION_SECS,
            marker_radius: MARKER_RADIUS,
            marker_color: Rgba::white(),
            background_color: Rgba::black(),
        }
    }
}

/// The size of a surface, in pixels.
#[derive(Clone, Copy, Debug, PartialEq, Eq, Structural)]
pub struct SurfaceSize {
    pub width: u32,
    pub height: u32,
}

impl SurfaceSize {
    /// Bytes in a frame of this size: four for each pixel.
    pub open spec fn byte_len(self) -> int {
        self.width * self.height * 4
    }

    /// Whether a frame of this size can be allocated on this machine.
    pub open spec fn fits(self) -> bool {
        self.byte_len() <= isize::MAX
    }

    /// Whether a frame of this size can be allocated on this machine.
    pub fn can_allocate(&self) -> (ok: bool)
        ensures
            ok == self.fits(),
    {
        let w: u64 = self.width as u64;
        let h: u64 = self.height as u64;
        assert(w * h <= 0xffff_ffff * 0xffff_ffff) by (nonlinear_arith)
            requires
                w <= 0xffff_ffff,
                h <= 0xffff_ffff,
        ;
        w * h <= (isize::MAX as u64) / 4
    }
}

/// The size that the overlay asks for: the primary display's resolution
/// where one is known, else 800 by 600.
pub open spec fn preferred_size(primary: Option<SurfaceSize>) -> SurfaceSize {
    match primary {
        Some(size) => size,
        None => SurfaceSize { width: 800, height: 600 },
    }
}

/// The size that the overlay asks for. A frame of the fallback size can
/// be allocated on every machine.
pub fn target_surface_size(primary: Option<SurfaceSize>) -> (size: SurfaceSize)
    ensures
        size == preferred_size(primary),
        primary is None ==> size.fits(),
{
    assert(800 * 600 * 4 == 1920000);
    match primary {
        Some(size) => size,
        None => SurfaceSize { width: FALLBACK_WIDTH, height: FALLBACK_HEIGHT },
    }
}

} // verus!
