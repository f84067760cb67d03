use eye_guard::fault::{Fault, Response};
use eye_guard::settings::{
    target_surface_size, Rgba, Settings, SurfaceSize, FALLBACK_HEIGHT, FALLBACK_WIDTH,
    IDLE_INTERVAL_SECS, MARKER_RADIUS, OVERLAY_DURATION_SECS,
};

#[test]
fn standard_settings() {
    let s = Settings::default();
    assert_eq!(s.idle_interval, 1800);
    assert_eq!(s.overlay_duration, 25);
    assert_eq!(s.marker_radius, 30);
    assert_eq!(s.marker_color, Rgba { r: 255, g: 255, b: 255, a: 255 });
    assert_eq!(s.background_color, Rgba { r: 0, g: 0, b: 0, a: 255 });
    assert_eq!(IDLE_INTERVAL_SECS, 30 * 60);
    assert_eq!(OVERLAY_DURATION_SECS, 25);
    assert_eq!(MARKER_RADIUS, 30);
}

#[test]
fn named_colours() {
    assert_eq!(Rgba::black(), Rgba { r: 0, g: 0, b: 0, a: 255 });
    assert_eq!(Rgba::white(), Rgba { r: 255, g: 255, b: 255, a: 255 });
}

#[test]
fn target_size_prefers_the_display() {
    let display = SurfaceSize { width: 1920, height: 1080 };
    assert_eq!(target_surface_size(Some(display)), display);
}

#[test]
fn target_size_falls_back() {
    assert_eq!(target_surface_size(None), SurfaceSize { width: 800, height: 600 });
    assert_eq!((FALLBACK_WIDTH, FALLBACK_HEIGHT), (800, 600));
}

#[test]
fn allocatable_sizes() {
    assert!(SurfaceSize { width: 0, height: 0 }.can_allocate());
    assert!(SurfaceSize { width: 800, height: 600 }.can_allocate());
    assert!(SurfaceSize { width: 7680, height: 4320 }.can_allocate());
    assert!(SurfaceSize { width: u32::MAX, height: 0 }.can_allocate());
    assert!(!SurfaceSize { width: u32::MAX, height: u32::MAX }.can_allocate());
    let limit = (isize::MAX as u128) / 4;
    for &(w, h) in [(u32::MAX, 1u32), (1 << 31, 1 << 30), (1 << 31, 1 << 29), (65536, 65536)].iter()
    {
        let fits = (w as u128) * (h as u128) <= limit;
        assert_eq!(SurfaceSize { width: w, height: h }.can_allocate(), fits);
    }
}

#[test]
fn response_to_each_fault() {
    assert_eq!(Fault::SurfaceUnavailable.response(), Response::UseFallbackSize);
    assert_eq!(Fault::WindowCreationFailed.response(), Response::AbortProcess);
    assert_eq!(Fault::PresentationFailed.response(), Response::EndSession);
    assert_eq!(Fault::NotificationFailed.response(), Response::Ignore);
}

#[test]
fn only_a_missing_window_is_fatal() {
    assert!(Fault::WindowCreationFailed.is_fatal());
    assert!(!Fault::SurfaceUnavailable.is_fatal());
    assert!(!Fault::PresentationFailed.is_fatal());
    assert!(!Fault::NotificationFailed.is_fatal());
}
