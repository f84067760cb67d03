//! Frames: flat byte buffers that hold four bytes for each pixel, row by row.
//!
//! Only whole pixels are ever written. Where a buffer is longer or shorter
//! than its surface, drawing is clipped to the pixels that both have.

use vstd::prelude::*;
use vstd::arithmetic::div_mod::{lemma_fundamental_div_mod, lemma_fundamental_div_mod_converse};
use crate::settings::{Rgba, Settings, SurfaceSize};
use crate::trajectory::{marker_position, marker_x, marker_y};

verus! {

/// A filled disk: the one thing that is drawn on a frame.
#[derive(Clone, Copy, Debug, PartialEq, Eq, Structural)]
pub struct Marker {
    /// Column of the centre.
    pub cx: u32,
    /// Row of the centre.
    pub cy: u32,
    /// Radius in pixels; a marker of radius 0 is its centre pixel alone.
    pub radius: u32,
    /// Colour of every pixel of the disk.
    pub color: Rgba,
}

impl Marker {
    /// Whether the pixel in column `x` and row `y` belongs to the disk.
    pub open spec fn contains(self, x: int, y: int) -> bool {
        (x - self.cx) * (x - self.cx) + (y - self.cy) * (y - self.cy) <= self.radius * self.radius
    }

    /// Whether the disk reaches the pixel with index `pixel` of a surface
    /// of the given size: the pixel lies on the surface and in the disk.
    pub open spec fn covers(self, size: SurfaceSize, pixel: int) -> bool {
        &&& size.width > 0
        &&& pixel / (size.width as int) < size.height
        &&& self.contains(pixel % (size.width as int), pixel / (size.width as int))
    }
}

/// The frame in which the whole pixel `pixel` has the colour `color` and
/// every other byte is as in `frame`.
pub open spec fn with_pixel(frame: Seq<u8>, pixel: int, color: Rgba) -> Seq<u8> {
    Seq::new(
        frame.len(),
        |i: int|
            if i / 4 == pixel {
                color.channel(i % 4)
            } else {
                frame[i]
            },
    )
}

/// The frame in which the first `pixels` pixels have the colour `color` and
/// every other byte is as in `frame`.
pub open spec fn filled(frame: Seq<u8>, color: Rgba, pixels: int) -> Seq<u8> {
    Seq::new(
        frame.len(),
        |i: int|
            if i / 4 < pixels {
                color.channel(i % 4)
            } else {
                frame[i]
            },
    )
}

/// The frame with every whole pixel set to `color`. Bytes behind the last
/// whole pixel, if there are any, stay.
pub open spec fn cleared(frame: Seq<u8>, color: Rgba) -> Seq<u8> {
    filled(frame, color, frame.len() as int / 4)
}

/// The frame with the marker drawn over it: every whole pixel that the
/// marker covers has the marker's colour, every other byte is as in `frame`.
pub open spec fn with_marker(frame: Seq<u8>, size: SurfaceSize, marker: Marker) -> Seq<u8> {
    Seq::new(
        frame.len(),
        |i: int|
            if i / 4 < frame.len() as int / 4 && marker.covers(size, i / 4) {
                marker.color.channel(i % 4)
            } else {
                frame[i]
            },
    )
}

/// The marker that `settings` asks for after `t` milliseconds.
pub open spec fn marker_at(t: int, size: SurfaceSize, settings: Settings) -> Marker {
    Marker {
        cx: marker_x(t, size.width as int, size.height as int) as u32,
        cy: marker_y(t, size.width as int, size.height as int) as u32,
        radius: settings.marker_radius,
        color: settings.marker_color,
    }
}

/// What one render pass leaves in a frame: the background everywhere, and
/// over it the marker at its place for the elapsed time `t`. A surface
/// without pixels has no marker.
pub open spec fn rendered(frame: Seq<u8>, size: SurfaceSize, t: int, settings: Settings) -> Seq<
    u8,
> {
    let blank = cleared(frame, settings.background_color);
    if size.width > 0 && size.height > 0 {
        with_marker(blank, size, marker_at(t, size, settings))
    } else {
        blank
    }
}

/// Whether a row-by-row scan that stands at (`row`, `col`) has passed `pixel`.
spec fn passed(pixel: int, width: int, row: int, col: int) -> bool {
    pixel / width < row || (pixel / width == row && pixel % width < col)
}

/// The frame while the marker is being drawn: as [`with_marker`], but only
/// over the pixels that the scan has passed.
spec fn marked_until(frame: Seq<u8>, size: SurfaceSize, marker: Marker, row: int, col: int) -> Seq<
    u8,
> {
    Seq::new(
        frame.len(),
        |i: int|
            if i / 4 < frame.len() as int / 4 && marker.covers(size, i / 4) && passed(
                i / 4,
                size.width as int,
                row,
                col,
            ) {
                marker.color.channel(i % 4)
            } else {
                frame[i]
            },
    )
}

proof fn lemma_square_extent(d: int, r: int)
    by (nonlinear_arith)
    requires
        0 <= r,
        d * d <= r * r,
    ensures
        -r <= d <= r,
{
}

proof fn lemma_square_nonnegative(d: int)
    by (nonlinear_arith)
    ensures
        0 <= d * d,
{
}

/// A pixel of the disk is at most `radius` columns and rows from the centre.
proof fn lemma_disk_extent(marker: Marker, x: int, y: int)
    requires
        marker.contains(x, y),
    ensures
        marker.cx - marker.radius <= x <= marker.cx + marker.radius,
        marker.cy - marker.radius <= y <= marker.cy + marker.radius,
{
    lemma_square_nonnegative(x - marker.cx);
    lemma_square_nonnegative(y - marker.cy);
    lemma_square_extent(x - marker.cx, marker.radius as int);
    lemma_square_extent(y - marker.cy, marker.radius as int);
}

/// A scan that has not reached the marker's first row has drawn nothing.
proof fn lemma_scan_begins(frame: Seq<u8>, size: SurfaceSize, marker: Marker, row: int)
    requires
        size.width > 0,
        row <= marker.cy - marker.radius || row <= 0,
    ensures
        marked_until(frame, size, marker, row, 0) == frame,
{
    let w = size.width as int;
    assert forall|i: int| 0 <= i < frame.len() implies marked_until(frame, size, marker, row, 0)[i]
        == frame[i] by {
        let p = i / 4;
        if marker.covers(size, p) {
            lemma_disk_extent(marker, p % w, p / w);
            lemma_fundamental_div_mod(p, w);
        }
    }
    assert(marked_until(frame, size, marker, row, 0) =~= frame);
}

/// In a row, the scan may skip the columns left of the disk.
proof fn lemma_row_begins(frame: Seq<u8>, size: SurfaceSize, marker: Marker, row: int, col: int)
    requires
        size.width > 0,
        col <= marker.cx - marker.radius || col <= 0,
    ensures
        marked_until(frame, size, marker, row, col) == marked_until(frame, size, marker, row, 0),
{
    let w = size.width as int;
    assert forall|i: int| 0 <= i < frame.len() implies marked_until(
        frame,
        size,
        marker,
        row,
        col,
    )[i] == marked_until(frame, size, marker, row, 0)[i] by {
        let p = i / 4;
        if marker.covers(size, p) {
            lemma_disk_extent(marker, p % w, p / w);
            lemma_fundamental_div_mod(p, w);
        }
    }
    assert(marked_until(frame, size, marker, row, col) =~= marked_until(
        frame,
        size,
        marker,
        row,
        0,
    ));
}

/// In a row, the scan may stop behind the disk or at the surface's edge.
proof fn lemma_row_ends(frame: Seq<u8>, size: SurfaceSize, marker: Marker, row: int, col: int)
    requires
        size.width > 0,
        col > marker.cx + marker.radius || col >= size.width,
    ensures
        marked_until(frame, size, marker, row, col) == marked_until(
            frame,
            size,
            marker,
            row + 1,
            0,
        ),
{
    let w = size.width as int;
    assert forall|i: int| 0 <= i < frame.len() implies marked_until(
        frame,
        size,
        marker,
        row,
        col,
    )[i] == marked_until(frame, size, marker, row + 1, 0)[i] by {
        let p = i / 4;
        lemma_fundamental_div_mod(p, w);
        if marker.covers(size, p) {
            lemma_disk_extent(marker, p % w, p / w);
        }
    }
    assert(marked_until(frame, size, marker, row, col) =~= marked_until(
        frame,
        size,
        marker,
        row + 1,
        0,
    ));
}

/// A scan that has passed the marker's last row, or the surface's, is done.
proof fn lemma_scan_ends(frame: Seq<u8>, size: SurfaceSize, marker: Marker, row: int)
    requires
        size.width > 0,
        row > marker.cy + marker.radius || row >= size.height,
    ensures
        marked_until(frame, size, marker, row, 0) == with_marker(frame, size, marker),
{
    let w = size.width as int;
    assert forall|i: int| 0 <= i < frame.len() implies marked_until(frame, size, marker, row, 0)[i]
        == with_marker(frame, size, marker)[i] by {
        let p = i / 4;
        if marker.covers(size, p) {
            lemma_disk_extent(marker, p % w, p / w);
        }
    }
    assert(marked_until(frame, size, marker, row, 0) =~= with_marker(frame, size, marker));
}

/// One step of the scan: the pixel at (`row`, `col`) is drawn if it is in
/// the disk and in the frame, and nothing else changes.
proof fn lemma_scan_step(frame: Seq<u8>, size: SurfaceSize, marker: Marker, row: int, col: int)
    requires
        0 <= row < size.height,
        0 <= col < size.width,
    ensures
        ({
            let pixel = row * size.width + col;
            let so_far = marked_until(frame, size, marker, row, col);
            marked_until(frame, size, marker, row, col + 1) == if marker.contains(col, row) && pixel
                < frame.len() as int / 4 {
                with_pixel(so_far, pixel, marker.color)
            } else {
                so_far
            }
        }),
{
    let w = size.width as int;
    let pixel = row * w + col;
    let so_far = marked_until(frame, size, marker, row, col);
    let next = marked_until(frame, size, marker, row, col + 1);
    let goal = if marker.contains(col, row) && pixel < frame.len() as int / 4 {
        with_pixel(so_far, pixel, marker.color)
    } else {
        so_far
    };
    lemma_fundamental_div_mod_converse(pixel, w, row, col);
    assert(w * row == row * w) by (nonlinear_arith);
    assert forall|i: int| 0 <= i < frame.len() implies next[i] == goal[i] by {
        let p = i / 4;
        lemma_fundamental_div_mod(p, w);
        if p != pixel {
            assert(!(p / w == row && p % w == col));
        }
    }
    assert(next =~= goal);
}

proof fn lemma_pixel_index(row: int, col: int, width: int, height: int)
    by (nonlinear_arith)
    requires
        0 <= row < height <= 0xffff_ffff,
        0 <= col < width <= 0xffff_ffff,
    ensures
        0 <= row * width <= 0xffff_ffff * 0xffff_ffff,
        0 <= row * width + col < width * height <= 0xffff_ffff * 0xffff_ffff,
{
}

proof fn lemma_distances(marker: Marker, x: int, y: int, dx: int, dy: int)
    by (nonlinear_arith)
    requires
        dx == x - marker.cx || dx == marker.cx - x,
        dy == y - marker.cy || dy == marker.cy - y,
        0 <= dx <= marker.radius,
        0 <= dy <= marker.radius,
    ensures
        0 <= dx * dx <= marker.radius * marker.radius <= 0xffff_ffff * 0xffff_ffff,
        0 <= dy * dy <= marker.radius * marker.radius,
        marker.contains(x, y) <==> dx * dx <= marker.radius * marker.radius - dy * dy,
{
}

/// Clearing twice is clearing once, and a cleared frame holds the colour in
/// every whole pixel.
pub proof fn lemma_clear_idempotent(frame: Seq<u8>, color: Rgba)
    ensures
        cleared(frame, color).len() == frame.len(),
        cleared(cleared(frame, color), color) == cleared(frame, color),
        forall|pixel: int, offset: int|
            0 <= pixel < frame.len() as int / 4 && 0 <= offset < 4 ==> #[trigger] cleared(
                frame,
                color,
            )[4 * pixel + offset] == color.channel(offset),
{
    assert(cleared(cleared(frame, color), color) =~= cleared(frame, color));
}

/// Writes the four bytes of one pixel.
pub fn put_pixel(frame: &mut [u8], pixel: usize, color: Rgba)
    requires
        4 * pixel + 4 <= old(frame)@.len(),
    ensures
        final(frame)@ == with_pixel(old(frame)@, pixel as int, color),
{
    let base: usize = 4 * pixel;
    frame[base] = color.r;
    frame[base + 1] = color.g;
    frame[base + 2] = color.b;
    frame[base + 3] = color.a;
    assert(frame@ =~= with_pixel(old(frame)@, pixel as int, color));
}

/// Sets every whole pixel of the frame to `color`.
pub fn clear(frame: &mut [u8], color: Rgba)
    ensures
        final(frame)@ == cleared(old(frame)@, color),
{
    let ghost before = frame@;
    let pixels: usize = frame.len() / 4;
    let mut done: usize = 0;
    assert(frame@ =~= filled(before, color, 0));
    while done < pixels
        invariant
            done <= pixels,
            pixels == before.len() / 4,
            frame@ == filled(before, color, done as int),
        decreases pixels - done,
    {
        put_pixel(frame, done, color);
        assert(frame@ =~= filled(before, color, done + 1));
        done += 1;
    }
}

/// Draws the marker over the frame of a surface of the given size, clipped
/// to the surface and to the frame.
pub fn draw_marker(frame: &mut [u8], size: SurfaceSize, marker: Marker)
    ensures
        final(frame)@ == with_marker(old(frame)@, size, marker),
{
    let ghost before = frame@;
    let pixels: usize = frame.len() / 4;
    if size.width == 0 || size.height == 0 {
        assert(frame@ =~= with_marker(before, size, marker));
        return ;
    }
    let w: u64 = size.width as u64;
    let h: u64 = size.height as u64;
    let cx: u64 = marker.cx as u64;
    let cy: u64 = marker.cy as u64;
    let r: u64 = marker.radius as u64;
    let first_col: u64 = if cx >= r { cx - r } else { 0 };
    let first_row: u64 = if cy >= r { cy - r } else { 0 };
    let end_col: u64 = if cx + r < w { cx + r + 1 } else { w };
    let end_row: u64 = if cy + r < h { cy + r + 1 } else { h };
    proof {
        lemma_distances(marker, cx as int, cy as int, 0, 0);
        lemma_scan_begins(before, size, marker, first_row as int);
    }
    let reach: u64 = r * r;
    let mut row: u64 = first_row;
    while row < end_row
        invariant
            first_row <= row,
            end_row <= h,
            w == size.width,
            h == size.height,
            w > 0,
            cx == marker.cx,
            cy == marker.cy,
            r == marker.radius,
            reach == r * r,
            first_row == if cy >= r { cy - r } else { 0 },
            first_col == if cx >= r { cx - r } else { 0 },
            end_col == if cx + r < w { cx + r + 1 } else { w as int },
            end_row == if cy + r < h { cy + r + 1 } else { h as int },
            pixels == before.len() / 4,
            frame@.len() == before.len(),
            frame@ == marked_until(before, size, marker, row as int, 0),
        decreases end_row - row,
    {
        let dy: u64 = if row >= cy { row - cy } else { cy - row };
        proof {
            lemma_distances(marker, cx as int, row as int, 0, dy as int);
            lemma_row_begins(before, size, marker, row as int, first_col as int);
        }
        let budget: u64 = reach - dy * dy;
        let mut col: u64 = first_col;
        while col < end_col
            invariant
                first_col <= col,
                end_col <= w,
                row < end_row <= h,
                first_row <= row,
                w == size.width,
                h == size.height,
                cx == marker.cx,
                cy == marker.cy,
                r == marker.radius,
                reach == r * r,
                dy == if row >= cy { row - cy } else { cy - row },
                dy <= r,
                budget == reach - dy * dy,
                first_col == if cx >= r { cx - r } else { 0 },
                end_col == if cx + r < w { cx + r + 1 } else { w as int },
                pixels == before.len() / 4,
                frame@.len() == before.len(),
                frame@ == marked_until(before, size, marker, row as int, col as int),
            decreases end_col - col,
        {
            let dx: u64 = if col >= cx { col - cx } else { cx - col };
            proof {
                lemma_distances(marker, col as int, row as int, dx as int, dy as int);
                lemma_pixel_index(row as int, col as int, w as int, h as int);
                lemma_scan_step(before, size, marker, row as int, col as int);
            }
            if dx * dx <= budget {
                let pixel: u64 = row * w + col;
                if pixel < pixels as u64 {
                    put_pixel(frame, pixel as usize, marker.color);
                }
            }
            col += 1;
        }
        proof {
            lemma_row_ends(before, size, marker, row as int, col as int);
        }
        row += 1;
    }
    proof {
        lemma_scan_ends(before, size, marker, row as int);
    }
}

/// One render pass with the given settings: clears the frame to the
/// background, then draws the marker where it is after `elapsed_ms`
/// milliseconds.
pub fn render(frame: &mut [u8], size: SurfaceSize, elapsed_ms: u64, settings: &Settings)
    ensures
        final(frame)@ == rendered(old(frame)@, size, elapsed_ms as int, *settings),
{
    clear(frame, settings.background_color);
    if size.width > 0 && size.height > 0 {
        let (cx, cy) = marker_position(elapsed_ms, size.width, size.height);
        let marker = Marker {
            cx,
            cy,
            radius: settings.marker_radius,
            color: settings.marker_color,
        };
        draw_marker(frame, size, marker);
    }
}

/// One render pass with the standard settings on a surface of `width` by
/// `height` pixels: an opaque black frame with a white disk of radius 30
/// where the marker is after `elapsed_ms` milliseconds.
pub fn draw_frame(frame: &mut [u8], width: u32, height: u32, elapsed_ms: u64)
    ensures
        final(frame)@ == rendered(
            old(frame)@,
            (SurfaceSize { width, height }),
            elapsed_ms as int,
            Settings::standard(),
        ),
{
    let settings = Settings::default();
    render(frame, SurfaceSize { width, height }, elapsed_ms, &settings);
}

} // verus!
