use eye_guard::frame::{clear, draw_frame, draw_marker, put_pixel, render, Marker};
use eye_guard::settings::{Rgba, Settings, SurfaceSize};

const BLACK: [u8; 4] = [0, 0, 0, 255];
const WHITE: [u8; 4] = [255, 255, 255, 255];
const RED: Rgba = Rgba { r: 200, g: 10, b: 20, a: 250 };
const BLUE: Rgba = Rgba { r: 1, g: 2, b: 230, a: 128 };

fn pixel(frame: &[u8], width: u32, x: u32, y: u32) -> [u8; 4] {
    let at = 4 * (y as usize * width as usize + x as usize);
    [frame[at], frame[at + 1], frame[at + 2], frame[at + 3]]
}

fn in_disk(x: u32, y: u32, cx: u32, cy: u32, radius: u32) -> bool {
    let dx = x as i128 - cx as i128;
    let dy = y as i128 - cy as i128;
    dx * dx + dy * dy <= (radius as i128) * (radius as i128)
}

fn check_disk(frame: &[u8], size: SurfaceSize, marker: Marker, background: [u8; 4]) -> usize {
    let color = [marker.color.r, marker.color.g, marker.color.b, marker.color.a];
    let mut drawn = 0;
    for y in 0..size.height {
        for x in 0..size.width {
            let expected = if in_disk(x, y, marker.cx, marker.cy, marker.radius) {
                drawn += 1;
                color
            } else {
                background
            };
            assert_eq!(pixel(frame, size.width, x, y), expected, "at ({}, {})", x, y);
        }
    }
    drawn
}

#[test]
fn put_pixel_writes_four_bytes() {
    let mut frame = vec![9u8; 16];
    put_pixel(&mut frame, 2, RED);
    assert_eq!(frame, vec![9, 9, 9, 9, 9, 9, 9, 9, 200, 10, 20, 250, 9, 9, 9, 9]);
}

#[test]
fn clear_sets_every_pixel() {
    let mut frame = vec![77u8; 4 * 12];
    clear(&mut frame, Rgba::black());
    for quad in frame.chunks(4) {
        assert_eq!(quad, &BLACK);
    }
    clear(&mut frame, RED);
    for quad in frame.chunks(4) {
        assert_eq!(quad, &[200, 10, 20, 250]);
    }
}

#[test]
fn clear_leaves_a_partial_pixel() {
    let mut frame = vec![77u8; 10];
    clear(&mut frame, Rgba::black());
    assert_eq!(frame, vec![0, 0, 0, 255, 0, 0, 0, 255, 77, 77]);
    let mut short = vec![5u8; 3];
    clear(&mut short, Rgba::black());
    assert_eq!(short, vec![5, 5, 5]);
    let mut empty: Vec<u8> = Vec::new();
    clear(&mut empty, Rgba::black());
    assert!(empty.is_empty());
}

#[test]
fn clearing_twice_is_clearing_once() {
    let mut frame: Vec<u8> = (0..203u32).map(|i| (i * 7 % 256) as u8).collect();
    clear(&mut frame, BLUE);
    let once = frame.clone();
    clear(&mut frame, BLUE);
    assert_eq!(frame, once);
    for quad in frame[..200].chunks(4) {
        assert_eq!(quad, &[1, 2, 230, 128]);
    }
}

#[test]
fn marker_of_radius_zero_is_one_pixel() {
    let size = SurfaceSize { width: 5, height: 4 };
    let mut frame = vec![0u8; 5 * 4 * 4];
    clear(&mut frame, Rgba::black());
    let marker = Marker { cx: 3, cy: 2, radius: 0, color: Rgba::white() };
    draw_marker(&mut frame, size, marker);
    assert_eq!(check_disk(&frame, size, marker, BLACK), 1);
    assert_eq!(pixel(&frame, 5, 3, 2), WHITE);
}

#[test]
fn marker_of_radius_one_is_a_plus() {
    let size = SurfaceSize { width: 7, height: 6 };
    let mut frame = vec![0u8; 7 * 6 * 4];
    clear(&mut frame, Rgba::black());
    let marker = Marker { cx: 3, cy: 2, radius: 1, color: RED };
    draw_marker(&mut frame, size, marker);
    assert_eq!(check_disk(&frame, size, marker, BLACK), 5);
    for &(x, y) in [(3u32, 2u32), (2, 2), (4, 2), (3, 1), (3, 3)].iter() {
        assert_eq!(pixel(&frame, 7, x, y), [200, 10, 20, 250]);
    }
    assert_eq!(pixel(&frame, 7, 2, 1), BLACK);
    assert_eq!(pixel(&frame, 7, 4, 3), BLACK);
}

#[test]
fn marker_of_radius_two_has_thirteen_pixels() {
    let size = SurfaceSize { width: 9, height: 9 };
    let mut frame = vec![0u8; 9 * 9 * 4];
    clear(&mut frame, Rgba::black());
    let marker = Marker { cx: 4, cy: 4, radius: 2, color: Rgba::white() };
    draw_marker(&mut frame, size, marker);
    assert_eq!(check_disk(&frame, size, marker, BLACK), 13);
}

#[test]
fn marker_is_clipped_at_the_edges() {
    let size = SurfaceSize { width: 10, height: 8 };
    for &(cx, cy) in [(0u32, 0u32), (9, 0), (0, 7), (9, 7), (5, 0), (0, 4), (9, 3)].iter() {
        let mut frame = vec![0u8; 10 * 8 * 4];
        clear(&mut frame, Rgba::black());
        let marker = Marker { cx, cy, radius: 3, color: Rgba::white() };
        draw_marker(&mut frame, size, marker);
        let drawn = check_disk(&frame, size, marker, BLACK);
        assert!(drawn > 0 && drawn < 29);
    }
}

#[test]
fn marker_does_not_wrap_into_the_next_row() {
    let size = SurfaceSize { width: 6, height: 3 };
    let mut frame = vec![0u8; 6 * 3 * 4];
    clear(&mut frame, Rgba::black());
    let marker = Marker { cx: 5, cy: 1, radius: 2, color: Rgba::white() };
    draw_marker(&mut frame, size, marker);
    check_disk(&frame, size, marker, BLACK);
    assert_eq!(pixel(&frame, 6, 0, 1), BLACK);
    assert_eq!(pixel(&frame, 6, 0, 2), BLACK);
    assert_eq!(pixel(&frame, 6, 3, 1), WHITE);
}

#[test]
fn marker_centred_off_the_surface() {
    let size = SurfaceSize { width: 6, height: 5 };
    let mut frame = vec![0u8; 6 * 5 * 4];
    clear(&mut frame, Rgba::black());
    let marker = Marker { cx: 7, cy: 2, radius: 2, color: Rgba::white() };
    draw_marker(&mut frame, size, marker);
    assert_eq!(check_disk(&frame, size, marker, BLACK), 1);
    assert_eq!(pixel(&frame, 6, 5, 2), WHITE);

    let mut untouched = vec![0u8; 6 * 5 * 4];
    clear(&mut untouched, Rgba::black());
    let far = Marker { cx: 100, cy: 100, radius: 3, color: Rgba::white() };
    draw_marker(&mut untouched, size, far);
    assert_eq!(check_disk(&untouched, size, far, BLACK), 0);
    let huge = Marker { cx: u32::MAX, cy: u32::MAX, radius: 5, color: Rgba::white() };
    draw_marker(&mut untouched, size, huge);
    assert_eq!(check_disk(&untouched, size, huge, BLACK), 0);
}

#[test]
fn marker_larger_than_the_surface_fills_it() {
    let size = SurfaceSize { width: 4, height: 3 };
    let mut frame = vec![0u8; 4 * 3 * 4];
    let marker = Marker { cx: 2, cy: 1, radius: u32::MAX, color: BLUE };
    draw_marker(&mut frame, size, marker);
    for quad in frame.chunks(4) {
        assert_eq!(quad, &[1, 2, 230, 128]);
    }
}

#[test]
fn marker_is_clipped_to_a_short_frame() {
    // The surface has 8 rows, the frame holds the first 3 and a half.
    let size = SurfaceSize { width: 8, height: 8 };
    let len = 4 * (3 * 8 + 4);
    let mut frame = vec![0u8; len + 3];
    let marker = Marker { cx: 4, cy: 3, radius: 2, color: Rgba::white() };
    draw_marker(&mut frame, size, marker);
    assert_eq!(frame.len(), len + 3);
    for p in 0..(len / 4) {
        let (x, y) = ((p % 8) as u32, (p / 8) as u32);
        let expected = if in_disk(x, y, 4, 3, 2) { WHITE } else { [0, 0, 0, 0] };
        assert_eq!(&frame[4 * p..4 * p + 4], &expected);
    }
    assert_eq!(&frame[len..], &[0, 0, 0]);
    assert_eq!(&frame[4 * (3 * 8 + 3)..4 * (3 * 8 + 4)], &WHITE);
}

#[test]
fn marker_on_a_long_frame_stays_on_the_surface() {
    let size = SurfaceSize { width: 4, height: 2 };
    let mut frame = vec![0u8; 4 * 4 * 4];
    let marker = Marker { cx: 1, cy: 1, radius: 2, color: Rgba::white() };
    draw_marker(&mut frame, size, marker);
    for p in 0..16usize {
        let (x, y) = ((p % 4) as u32, (p / 4) as u32);
        let expected = if y < 2 && in_disk(x, y, 1, 1, 2) { WHITE } else { [0, 0, 0, 0] };
        assert_eq!(&frame[4 * p..4 * p + 4], &expected);
    }
}

#[test]
fn marker_on_an_empty_surface_draws_nothing() {
    let marker = Marker { cx: 0, cy: 0, radius: 10, color: Rgba::white() };
    let mut frame = vec![3u8; 64];
    draw_marker(&mut frame, SurfaceSize { width: 0, height: 4 }, marker);
    assert_eq!(frame, vec![3u8; 64]);
    draw_marker(&mut frame, SurfaceSize { width: 4, height: 0 }, marker);
    assert_eq!(frame, vec![3u8; 64]);
}

#[test]
fn draw_frame_at_the_start() {
    let mut frame = vec![123u8; 800 * 600 * 4];
    draw_frame(&mut frame, 800, 600, 0);
    let size = SurfaceSize { width: 800, height: 600 };
    let marker = Marker { cx: 400, cy: 300, radius: 30, color: Rgba::white() };
    assert_eq!(check_disk(&frame, size, marker, BLACK), 2821);
    assert_eq!(frame.len(), 800 * 600 * 4);
}

#[test]
fn draw_frame_follows_the_marker() {
    let size = SurfaceSize { width: 800, height: 600 };
    let mut frame = vec![0u8; 800 * 600 * 4];
    draw_frame(&mut frame, 800, 600, 1571);
    let marker = Marker { cx: 550, cy: 374, radius: 30, color: Rgba::white() };
    assert_eq!(check_disk(&frame, size, marker, BLACK), 2821);
    draw_frame(&mut frame, 800, 600, 4713);
    let marker = Marker { cx: 250, cy: 226, radius: 30, color: Rgba::white() };
    assert_eq!(check_disk(&frame, size, marker, BLACK), 2821);
}

#[test]
fn draw_frame_on_a_small_surface() {
    let mut frame = vec![9u8; 4];
    draw_frame(&mut frame, 1, 1, 12345);
    assert_eq!(frame, vec![255, 255, 255, 255]);
    let mut frame = vec![9u8; 5 * 3 * 4];
    draw_frame(&mut frame, 5, 3, 777);
    for quad in frame.chunks(4) {
        assert_eq!(quad, &WHITE);
    }
}

#[test]
fn draw_frame_without_a_surface_only_clears() {
    let mut frame = vec![9u8; 10];
    draw_frame(&mut frame, 0, 0, 5);
    assert_eq!(frame, vec![0, 0, 0, 255, 0, 0, 0, 255, 9, 9]);
    let mut frame = vec![9u8; 8];
    draw_frame(&mut frame, 0, 7, 5);
    assert_eq!(frame, vec![0, 0, 0, 255, 0, 0, 0, 255]);
}

#[test]
fn draw_frame_never_writes_outside_the_frame() {
    // A frame shorter than its surface: whatever the time, the call returns
    // and the length stays.
    for t in (0..20000u64).step_by(97) {
        let mut frame = vec![0u8; 4 * 1000 + 2];
        draw_frame(&mut frame, 100, 100, t);
        assert_eq!(frame.len(), 4002);
        assert_eq!(&frame[4000..], &[0, 0]);
    }
}

#[test]
fn render_uses_the_settings() {
    let settings = Settings {
        idle_interval: 60,
        overlay_duration: 5,
        marker_radius: 4,
        marker_color: RED,
        background_color: BLUE,
    };
    let size = SurfaceSize { width: 64, height: 48 };
    let mut frame = vec![0u8; 64 * 48 * 4];
    render(&mut frame, size, 0, &settings);
    let marker = Marker { cx: 32, cy: 24, radius: 4, color: RED };
    assert_eq!(check_disk(&frame, size, marker, [1, 2, 230, 128]), 49);
    // A quarter turn later the marker is at the far right of its swing.
    render(&mut frame, size, 1571, &settings);
    let marker = Marker { cx: 44, cy: 29, radius: 4, color: RED };
    assert_eq!(check_disk(&frame, size, marker, [1, 2, 230, 128]), 49);
}
