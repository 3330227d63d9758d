//! Pixels of a screen or window: conversion, cropping, comparison and encoding.

use vstd::prelude::*;

use crate::number;
use crate::text;

verus! {

/// A capture failure, categorised so that the caller can report it.
#[derive(Debug, Clone, PartialEq, Eq)]
pub enum CaptureError {
    /// The requested window or monitor does not exist.
    NotFound(String),
    /// Capture is not available on this platform.
    Unsupported(String),
    /// Capture was attempted but failed.
    Failed(String),
}

impl CaptureError {
    /// The message of the failure.
    pub open spec fn message(self) -> Seq<char> {
        match self {
            CaptureError::NotFound(m) => m@,
            CaptureError::Unsupported(m) => m@,
            CaptureError::Failed(m) => m@,
        }
    }

    /// Whether two failures are of one category.
    pub open spec fn same_category(self, other: CaptureError) -> bool {
        &&& self is NotFound <==> other is NotFound
        &&& self is Unsupported <==> other is Unsupported
        &&& self is Failed <==> other is Failed
    }

    /// The message of the failure.
    pub fn to_string(&self) -> (r: String)
        ensures
            r@ == self.message(),
    {
        match self {
            CaptureError::NotFound(m) => m.clone(),
            CaptureError::Unsupported(m) => m.clone(),
            CaptureError::Failed(m) => m.clone(),
        }
    }
}

/// What both attempts failed with, in one message.
pub open spec fn both_failed(primary: CaptureError, fallback: CaptureError) -> Seq<char> {
    "WGC: "@ + primary.message() + "; GDI fallback: "@ + fallback.message()
}

/// Combines the failures of a first attempt and of its fallback into one, which
/// keeps the category of the first: a missing target stays one.
pub fn combined(primary: CaptureError, fallback: CaptureError) -> (r: CaptureError)
    ensures
        r.message() == both_failed(primary, fallback),
        r.same_category(primary),
{
    let mut m = text::join3("WGC: ", primary.to_string().as_str(), "; GDI fallback: ");
    m.append(fallback.to_string().as_str());
    match primary {
        CaptureError::NotFound(_) => CaptureError::NotFound(m),
        CaptureError::Unsupported(_) => CaptureError::Unsupported(m),
        CaptureError::Failed(_) => CaptureError::Failed(m),
    }
}

/// Captures a window: the first attempt counts if it worked, then the second, and
/// if both failed the fallback. The error tells of the first attempt and of the
/// fallback, and keeps the category of the first.
pub fn capture_window<T, F, G>(
    primary: Result<T, CaptureError>,
    region: F,
    fallback: G,
) -> (r: Result<T, CaptureError>) where
    F: FnOnce() -> Result<T, CaptureError>,
    G: FnOnce() -> Result<T, CaptureError>,

    requires
        region.requires(()),
        fallback.requires(()),
    ensures
        match primary {
            Ok(image) => r == Ok::<T, CaptureError>(image),
            Err(first) => exists|second: Result<T, CaptureError>| #[trigger]
                region.ensures((), second) && match second {
                    Ok(image) => r == Ok::<T, CaptureError>(image),
                    Err(_) => exists|third: Result<T, CaptureError>| #[trigger]
                        fallback.ensures((), third) && match third {
                            Ok(image) => r == Ok::<T, CaptureError>(image),
                            Err(last) => r matches Err(e) && e.message() == both_failed(
                                first,
                                last,
                            ) && e.same_category(first),
                        },
                },
        },
{
    match primary {
        Ok(image) => Ok(image),
        Err(first) => match region() {
            Ok(image) => Ok(image),
            Err(_) => match fallback() {
                Ok(image) => Ok(image),
                Err(last) => Err(combined(first, last)),
            },
        },
    }
}

/// Captures the primary monitor: the first attempt counts if it worked, else the
/// fallback. The error tells of both, and keeps the category of the first.
pub fn capture_primary_monitor<T, F>(primary: Result<T, CaptureError>, fallback: F) -> (r: Result<
    T,
    CaptureError,
>) where F: FnOnce() -> Result<T, CaptureError>
    requires
        fallback.requires(()),
    ensures
        match primary {
            Ok(image) => r == Ok::<T, CaptureError>(image),
            Err(first) => exists|second: Result<T, CaptureError>| #[trigger]
                fallback.ensures((), second) && match second {
                    Ok(image) => r == Ok::<T, CaptureError>(image),
                    Err(last) => r matches Err(e) && e.message() == both_failed(first, last)
                        && e.same_category(first),
                },
        },
{
    match primary {
        Ok(image) => Ok(image),
        Err(first) => match fallback() {
            Ok(image) => Ok(image),
            Err(last) => Err(combined(first, last)),
        },
    }
}

/// An image of four bytes per pixel: red, green, blue, opacity; row by row.
#[derive(Debug, PartialEq, Eq)]
pub struct Pixels {
    /// Width in pixels.
    pub width: u32,
    /// Height in pixels.
    pub height: u32,
    /// The bytes.
    pub data: Vec<u8>,
}

impl Pixels {
    /// There are exactly as many bytes as the size asks for.
    pub open spec fn well_formed(self) -> bool {
        self.data@.len() == self.width * self.height * 4
    }

    /// A byte of the pixel in column `x` of row `y`.
    pub open spec fn byte(self, x: int, y: int, c: int) -> u8 {
        self.data@[at(x, y, c, self.width as int)]
    }
}

/// The bytes of a rectangle of an image whose rows are `row` pixels long.
pub open spec fn part(data: Seq<u8>, row: int, x: int, y: int, width: int, height: int) -> Seq<u8> {
    Seq::new(
        (width * height * 4) as nat,
        |k: int| data[((y + k / (width * 4)) * row + x) * 4 + k % (width * 4)],
    )
}

/// The bytes of opaque pixels whose red and blue are swapped.
pub open spec fn from_bgr(data: Seq<u8>) -> Seq<u8> {
    Seq::new(
        data.len(),
        |i: int|
            if i % 4 == 0 {
                data[i + 2]
            } else if i % 4 == 1 {
                data[i]
            } else if i % 4 == 2 {
                data[i - 2]
            } else {
                255u8
            },
    )
}

/// Swaps red and blue and makes every pixel opaque.
pub fn bgr_to_rgb(data: Vec<u8>) -> (out: Vec<u8>)
    requires
        data@.len() % 4 == 0,
    ensures
        out@ == from_bgr(data@),
{
    let mut out: Vec<u8> = Vec::new();
    let n: usize = data.len();
    let mut i: usize = 0;
    while i < n
        invariant
            n == data@.len(),
            n % 4 == 0,
            i % 4 == 0,
            i <= n,
            out@ == from_bgr(data@).take(i as int),
        decreases n - i,
    {
        out.push(data[i + 2]);
        out.push(data[i + 1]);
        out.push(data[i]);
        out.push(255);
        i = i + 4;
        assert(out@ =~= from_bgr(data@).take(i as int));
    }
    assert(out@ =~= from_bgr(data@));
    out
}

/// The byte of an image in padded rows: red and blue are swapped, and every pixel
/// is opaque.
pub open spec fn padded_byte(data: Seq<u8>, pitch: int, x: int, y: int, c: int) -> u8 {
    if c == 3 {
        255u8
    } else {
        data[y * pitch + x * 4 + (2 - c)]
    }
}

/// Reads an image whose rows are `pitch` bytes apart.
#[verifier::loop_isolation(false)]
pub fn read_frame(data: &[u8], pitch: usize, width: u32, height: u32) -> (r: Pixels)
    requires
        width * 4 <= pitch,
        pitch * height <= data@.len(),
    ensures
        r.width == width,
        r.height == height,
        r.well_formed(),
        forall|x: int, y: int, c: int|
            0 <= x < width && 0 <= y < height && 0 <= c < 4 ==> #[trigger] r.byte(x, y, c)
                == padded_byte(data@, pitch as int, x, y, c),
{
    let size: usize = data.len();
    let mut out: Vec<u8> = Vec::new();
    let mut y: u32 = 0;
    let mut row: usize = 0;
    while y < height
        invariant
            y <= height,
            row == y * pitch,
            out@.len() == y * width * 4,
            forall|a: int, b: int, c: int|
                0 <= a < width && 0 <= b < y && 0 <= c < 4 ==> out@[#[trigger] at(a, b, c, width as int)]
                    == padded_byte(data@, pitch as int, a, b, c),
        decreases height - y,
    {
        let mut x: u32 = 0;
        assert(row + pitch <= data@.len()) by (nonlinear_arith)
            requires
                row == y * pitch,
                y < height,
                pitch * height <= data@.len(),
        ;
        while x < width
            invariant
                x <= width,
                row + pitch <= data@.len(),
                out@.len() == y * width * 4 + x * 4,
                forall|a: int, b: int, c: int|
                    0 <= c < 4 && 0 <= a < width && (0 <= b < y || (b == y && a < x)) ==> out@[#[trigger] at(
                        a,
                        b,
                        c,
                        width as int,
                    )] == padded_byte(data@, pitch as int, a, b, c),
            decreases width - x,
        {
            let p: usize = row + x as usize * 4;
            let ghost before = out@;
            out.push(data[p + 2]);
            out.push(data[p + 1]);
            out.push(data[p]);
            out.push(255);
            assert forall|a: int, b: int, c: int|
                0 <= c < 4 && 0 <= a < width && (0 <= b < y || (b == y && a < x + 1)) implies out@[#[trigger] at(
                a,
                b,
                c,
                width as int,
            )] == padded_byte(data@, pitch as int, a, b, c) by {
                lemma_at(a, b, c, width as int, x as int, y as int);
            }
            x = x + 1;
        }
        y = y + 1;
        assert(y * width * 4 == (y - 1) * width * 4 + width * 4) by (nonlinear_arith);
        assert(y * pitch == (y - 1) * pitch + pitch) by (nonlinear_arith);
        row = row + pitch;
    }
    assert(height * width * 4 == width * height * 4) by (nonlinear_arith);
    let r = Pixels { width, height, data: out };
    assert forall|a: int, b: int, c: int|
        0 <= a < width && 0 <= b < height && 0 <= c < 4 implies #[trigger] r.byte(a, b, c)
        == padded_byte(data@, pitch as int, a, b, c) by {
        assert(out@[at(a, b, c, width as int)] == padded_byte(data@, pitch as int, a, b, c));
    }
    r
}

/// The position of a byte in rows of `width` pixels.
pub open spec fn at(x: int, y: int, c: int, width: int) -> int {
    (y * width + x) * 4 + c
}

proof fn lemma_at(a: int, b: int, c: int, width: int, x: int, y: int)
    requires
        0 <= c < 4,
        0 <= a < width,
        0 <= x < width,
        0 <= b,
        b < y || (b == y && a <= x),
    ensures
        0 <= at(a, b, c, width) < y * width * 4 + x * 4 + 4,
        (b < y || a < x) ==> at(a, b, c, width) < y * width * 4 + x * 4,
        (b == y && a == x) ==> at(a, b, c, width) == y * width * 4 + x * 4 + c,
{
    assert(b < y ==> b * width + width <= y * width) by (nonlinear_arith)
        requires
            width > 0,
    ;
    assert(b * width >= 0) by (nonlinear_arith)
        requires
            b >= 0,
            width > 0,
    ;
}

/// Takes over the rows that the system drew: red and blue are swapped, and every
/// pixel becomes opaque. No row at all is a failure.
pub fn read_pixels(scanlines: i32, buffer: Vec<u8>, width: u32, height: u32) -> (r: Result<
    Pixels,
    CaptureError,
>)
    requires
        buffer@.len() == width * height * 4,
    ensures
        match r {
            Ok(p) => scanlines != 0 && p.width == width && p.height == height && p.data@
                == from_bgr(buffer@) && p.well_formed(),
            Err(e) => scanlines == 0 && e is Failed && e.message() == "GetDIBits failed"@,
        },
{
    if scanlines == 0 {
        return Err(CaptureError::Failed("GetDIBits failed".to_string()));
    }
    let data = bgr_to_rgb(buffer);
    Ok(Pixels { width, height, data })
}

/// The part of a length that is left from a position on, and at most `wanted`.
pub open spec fn clipped(at: int, wanted: int, length: int) -> int {
    let from = if at < length {
        at
    } else {
        length
    };
    if wanted < length - from {
        wanted
    } else {
        length - from
    }
}

/// Cuts a rectangle out of an image. What lies outside the image is left out.
#[verifier::loop_isolation(false)]
pub fn crop(image: &Pixels, x: u32, y: u32, width: u32, height: u32) -> (r: Pixels)
    requires
        image.well_formed(),
    ensures
        r.well_formed(),
        r.width == clipped(x as int, width as int, image.width as int),
        r.height == clipped(y as int, height as int, image.height as int),
        forall|a: int, b: int, c: int|
            0 <= a < r.width && 0 <= b < r.height && 0 <= c < 4 ==> #[trigger] r.byte(a, b, c)
                == image.byte(x + a, y + b, c),
{
    let left: u32 = if x < image.width {
        x
    } else {
        image.width
    };
    let top: u32 = if y < image.height {
        y
    } else {
        image.height
    };
    let w: u32 = if width < image.width - left {
        width
    } else {
        image.width - left
    };
    let h: u32 = if height < image.height - top {
        height
    } else {
        image.height - top
    };
    let size: usize = image.data.len();
    let mut out: Vec<u8> = Vec::new();
    let mut j: u32 = 0;
    while j < h
        invariant
            j <= h,
            out@.len() == j * w * 4,
            forall|a: int, b: int, c: int|
                0 <= a < w && 0 <= b < j && 0 <= c < 4 ==> out@[#[trigger] at(a, b, c, w as int)]
                    == image.byte(x + a, y + b, c),
        decreases h - j,
    {
        let mut i: u32 = 0;
        while i < w
            invariant
                i <= w,
                out@.len() == j * w * 4 + i * 4,
                forall|a: int, b: int, c: int|
                    0 <= c < 4 && 0 <= a < w && 0 <= b && (b < j || (b == j && a < i))
                        ==> out@[#[trigger] at(a, b, c, w as int)] == image.byte(x + a, y + b, c),
            decreases w - i,
        {
            proof {
                lemma_at(
                    left + i,
                    top + j,
                    3,
                    image.width as int,
                    image.width - 1,
                    image.height - 1,
                );
                let (g, f) = (image.width as int, image.height as int);
                assert((f - 1) * g * 4 + (g - 1) * 4 + 4 == g * f * 4) by (nonlinear_arith);
                assert(at(left + i, top + j, 3, g) < size);
                assert((top + j) * g >= 0) by (nonlinear_arith)
                    requires
                        top + j >= 0,
                        g >= 0,
                ;
            }
            let row: usize = (top as usize + j as usize) * image.width as usize;
            let p: usize = (row + left as usize + i as usize) * 4;
            assert(p == at(left + i, top + j, 0, image.width as int));
            out.push(image.data[p]);
            out.push(image.data[p + 1]);
            out.push(image.data[p + 2]);
            out.push(image.data[p + 3]);
            assert forall|a: int, b: int, c: int|
                0 <= c < 4 && 0 <= a < w && 0 <= b && (b < j || (b == j && a < i + 1)) implies out@[#[trigger] at(
                a,
                b,
                c,
                w as int,
            )] == image.byte(x + a, y + b, c) by {
                lemma_at(a, b, c, w as int, i as int, j as int);
            }
            i = i + 1;
        }
        j = j + 1;
        assert(j * w * 4 == (j - 1) * w * 4 + w * 4) by (nonlinear_arith);
    }
    assert(h * w * 4 == w * h * 4) by (nonlinear_arith);
    let r = Pixels { width: w, height: h, data: out };
    assert forall|a: int, b: int, c: int|
        0 <= a < w && 0 <= b < h && 0 <= c < 4 implies #[trigger] r.byte(a, b, c) == image.byte(
        x + a,
        y + b,
        c,
    ) by {
        assert(out@[at(a, b, c, w as int)] == image.byte(x + a, y + b, c));
    }
    r
}

/// The larger of a number and zero.
pub open spec fn at_least_zero(v: i32) -> int {
    if v < 0 {
        0
    } else {
        v as int
    }
}

/// Cuts the region of a request out of the whole screen: an edge left of or above
/// the screen counts as its border.
pub fn crop_region(full: &Pixels, x: i32, y: i32, width: u32, height: u32) -> (r: Pixels)
    requires
        full.well_formed(),
    ensures
        r.well_formed(),
        r.width == clipped(at_least_zero(x), width as int, full.width as int),
        r.height == clipped(at_least_zero(y), height as int, full.height as int),
        forall|a: int, b: int, c: int|
            0 <= a < r.width && 0 <= b < r.height && 0 <= c < 4 ==> #[trigger] r.byte(a, b, c)
                == full.byte(at_least_zero(x) + a, at_least_zero(y) + b, c),
{
    let left: u32 = if x < 0 {
        0
    } else {
        x as u32
    };
    let top: u32 = if y < 0 {
        0
    } else {
        y as u32
    };
    crop(full, left, top, width, height)
}

/// The extent between two edges, and at least one pixel.
pub open spec fn extent(low: i32, high: i32) -> int {
    if high - low < 1 {
        1
    } else {
        high - low
    }
}

/// Cuts a window out of the monitor that shows it. A window of which nothing lies
/// on the monitor cannot be captured that way.
pub fn capture_window_region(monitor: &Pixels, left: i32, top: i32, right: i32, bottom: i32) -> (r:
    Result<Pixels, CaptureError>)
    requires
        monitor.well_formed(),
        right - left <= i32::MAX,
        right - left >= i32::MIN,
        bottom - top <= i32::MAX,
        bottom - top >= i32::MIN,
    ensures
        ({
            let w = clipped(at_least_zero(left), extent(left, right), monitor.width as int);
            let h = clipped(at_least_zero(top), extent(top, bottom), monitor.height as int);
            match r {
                Ok(image) => w > 0 && h > 0 && image.width == w && image.height == h
                    && image.well_formed() && forall|a: int, b: int, c: int|
                    0 <= a < w && 0 <= b < h && 0 <= c < 4 ==> #[trigger] image.byte(a, b, c)
                        == monitor.byte(at_least_zero(left) + a, at_least_zero(top) + b, c),
                Err(e) => (w == 0 || h == 0) && e is Failed && e.message()
                    == "window is off-screen"@,
            }
        }),
{
    let width: i32 = if right - left < 1 {
        1
    } else {
        right - left
    };
    let height: i32 = if bottom - top < 1 {
        1
    } else {
        bottom - top
    };
    let image = crop_region(monitor, left, top, width as u32, height as u32);
    if image.width == 0 || image.height == 0 {
        return Err(CaptureError::Failed("window is off-screen".to_string()));
    }
    Ok(image)
}

/// The size that a captured item must have: neither side may be zero or negative.
pub fn check_size(width: i32, height: i32) -> (r: Result<(u32, u32), CaptureError>)
    ensures
        match r {
            Ok(size) => width > 0 && height > 0 && size == (width as u32, height as u32),
            Err(e) => (width <= 0 || height <= 0) && e is Failed && e.message()
                == "capture item has zero size ("@ + number::signed(width as int) + "x"@
                + number::signed(height as int) + ")"@,
        },
{
    if width <= 0 || height <= 0 {
        let mut m = text::join3(
            "capture item has zero size (",
            number::signed_text(width).as_str(),
            "x",
        );
        m.append(number::signed_text(height).as_str());
        m.append(")");
        return Err(CaptureError::Failed(m));
    }
    Ok((width as u32, height as u32))
}

/// How long to wait for the first frame, in milliseconds.
pub const FIRST_FRAME_MS: u64 = 1500;

/// For how long after the first frame fresher ones are taken, in milliseconds.
pub const SETTLE_MS: u64 = 300;

/// What a wait for frames comes to.
#[derive(Debug, Clone, PartialEq, Eq)]
pub enum FrameStep {
    /// Wait for a frame for at most this many milliseconds.
    Wait(u64),
    /// Answer with the latest frame.
    Take,
    /// There was no frame.
    Fail(CaptureError),
}

/// Decides how a wait for frames goes on. The first frame often shows the window
/// before it has drawn its content, so fresher ones are taken for a while: until the
/// time is up, or none comes any more. `since_first` is how long ago the first frame
/// came, if one did; `timed_out` tells that the last wait brought none.
pub fn capture_item(since_first: Option<u64>, timed_out: bool) -> (r: FrameStep)
    ensures
        match since_first {
            None => if timed_out {
                r matches FrameStep::Fail(e) && e is Failed && e.message()
                    == "timed out waiting for a capture frame"@
            } else {
                r == FrameStep::Wait(FIRST_FRAME_MS)
            },
            Some(ms) => r == if timed_out || ms >= SETTLE_MS {
                FrameStep::Take
            } else {
                FrameStep::Wait((SETTLE_MS - ms) as u64)
            },
        },
{
    match since_first {
        None => {
            if timed_out {
                FrameStep::Fail(
                    CaptureError::Failed("timed out waiting for a capture frame".to_string()),
                )
            } else {
                FrameStep::Wait(FIRST_FRAME_MS)
            }
        },
        Some(ms) => {
            if timed_out || ms >= SETTLE_MS {
                FrameStep::Take
            } else {
                FrameStep::Wait(SETTLE_MS - ms)
            }
        },
    }
}

/// By how much a channel may differ without counting as a change.
pub const TOLERANCE: u8 = 16;

/// Whether two bytes are further apart than the tolerance.
pub open spec fn apart(a: u8, b: u8) -> bool {
    a - b > TOLERANCE || b - a > TOLERANCE
}

/// Whether a pixel changed: red, green or blue are further apart than the
/// tolerance.
pub open spec fn pixel_changed(new: Seq<u8>, base: Seq<u8>, pixel: int) -> bool {
    apart(new[pixel * 4], base[pixel * 4]) || apart(new[pixel * 4 + 1], base[pixel * 4 + 1])
        || apart(new[pixel * 4 + 2], base[pixel * 4 + 2])
}

/// How many of the first `n` pixels changed.
pub open spec fn changed_pixels(new: Seq<u8>, base: Seq<u8>, n: nat) -> nat
    decreases n,
{
    if n == 0 {
        0
    } else {
        changed_pixels(new, base, (n - 1) as nat) + if pixel_changed(new, base, n - 1) {
            1nat
        } else {
            0
        }
    }
}

/// The new image with every changed pixel painted magenta.
pub open spec fn overlay(new: Seq<u8>, base: Seq<u8>) -> Seq<u8> {
    Seq::new(
        new.len(),
        |i: int|
            if !pixel_changed(new, base, i / 4) {
                new[i]
            } else if i % 4 == 1 {
                0u8
            } else {
                255u8
            },
    )
}

/// What a comparison found.
#[derive(Debug, PartialEq, Eq)]
pub enum Comparison {
    /// The sizes differ.
    Resized,
    /// Pixel for pixel.
    Compared {
        /// How many pixels changed.
        changed: u64,
        /// How many pixels there are.
        total: u64,
        /// The new image with the changed pixels painted, if it was asked for.
        overlay: Option<Vec<u8>>,
    },
}

/// Compares an image with its baseline, pixel by pixel.
pub fn compare(new: &Pixels, base: &Pixels, paint: bool) -> (r: Comparison)
    requires
        new.well_formed(),
        base.well_formed(),
    ensures
        match r {
            Comparison::Resized => new.width != base.width || new.height != base.height,
            Comparison::Compared { changed, total, overlay: painted } => {
                &&& new.width == base.width && new.height == base.height
                &&& total == new.width * new.height
                &&& changed == changed_pixels(new.data@, base.data@, total as nat)
                &&& match painted {
                    Some(data) => paint && data@ == overlay(new.data@, base.data@),
                    None => !paint,
                }
            },
        },
{
    if new.width != base.width || new.height != base.height {
        return Comparison::Resized;
    }
    let n: usize = new.data.len();
    proof {
        assert(new.width * new.height * 4 == 4 * (new.width * new.height)) by (nonlinear_arith);
        assert(new.width * new.height <= u32::MAX * u32::MAX) by (nonlinear_arith)
            requires
                new.width <= u32::MAX,
                new.height <= u32::MAX,
        ;
    }
    let total: u64 = new.width as u64 * new.height as u64;
    let mut painted: Vec<u8> = Vec::new();
    let mut changed: u64 = 0;
    let mut i: usize = 0;
    let ghost mut pixel: int = 0;
    while i < n
        invariant
            n == new.data@.len(),
            n == base.data@.len(),
            n == total * 4,
            i == pixel * 4,
            0 <= pixel,
            i <= n,
            changed <= pixel,
            changed == changed_pixels(new.data@, base.data@, pixel as nat),
            painted@ == if paint {
                overlay(new.data@, base.data@).take(i as int)
            } else {
                Seq::<u8>::empty()
            },
        decreases n - i,
    {
        let differs = far(new.data[i], base.data[i]) || far(new.data[i + 1], base.data[i + 1])
            || far(new.data[i + 2], base.data[i + 2]);
        assert(differs == pixel_changed(new.data@, base.data@, pixel));
        if differs {
            changed = changed + 1;
        }
        if paint {
            if differs {
                painted.push(255);
                painted.push(0);
                painted.push(255);
                painted.push(255);
            } else {
                painted.push(new.data[i]);
                painted.push(new.data[i + 1]);
                painted.push(new.data[i + 2]);
                painted.push(new.data[i + 3]);
            }
        }
        i = i + 4;
        proof {
            pixel = pixel + 1;
            if paint {
                assert(painted@ =~= overlay(new.data@, base.data@).take(i as int));
            }
        }
    }
    assert(overlay(new.data@, base.data@).take(n as int) =~= overlay(new.data@, base.data@));
    Comparison::Compared {
        changed,
        total,
        overlay: if paint {
            Some(painted)
        } else {
            None
        },
    }
}

/// Whether two bytes are further apart than the tolerance.
fn far(a: u8, b: u8) -> (r: bool)
    ensures
        r == apart(a, b),
{
    if a > b {
        a - b > TOLERANCE
    } else {
        b - a > TOLERANCE
    }
}

/// An image never differs from itself.
pub proof fn law_image_matches_itself(data: Seq<u8>, n: nat)
    ensures
        changed_pixels(data, data, n) == 0,
        overlay(data, data) == data,
    decreases n,
{
    if n > 0 {
        law_image_matches_itself(data, (n - 1) as nat);
    }
    assert(overlay(data, data) =~= data);
}

/// Which of two images is the baseline does not matter to the count.
pub proof fn law_comparison_is_symmetric(a: Seq<u8>, b: Seq<u8>, n: nat)
    ensures
        changed_pixels(a, b, n) == changed_pixels(b, a, n),
    decreases n,
{
    if n > 0 {
        law_comparison_is_symmetric(a, b, (n - 1) as nat);
    }
}

/// How far two bytes are from each other.
pub open spec fn distance(a: u8, b: u8) -> int {
    if a >= b {
        a - b
    } else {
        b - a
    }
}

/// Whether some colour of a pixel has moved by more than 16.
pub open spec fn colour_moved(new: Seq<u8>, base: Seq<u8>, pixel: int) -> bool {
    exists|c: int|
        0 <= c < 3 && distance(
            #[trigger] new[4 * pixel + c],
            base[4 * pixel + c],
        ) > 16
}

/// The numbers below `n`.
pub open spec fn below_number(n: nat) -> Seq<int> {
    Seq::new(n, |i: int| i)
}

proof fn lemma_pixel_changed(new: Seq<u8>, base: Seq<u8>, pixel: int)
    ensures
        pixel_changed(new, base, pixel) == colour_moved(new, base, pixel),
{
    assert(new[4 * pixel + 0] == new[pixel * 4]);
    assert(base[4 * pixel + 0] == base[pixel * 4]);
    assert(new[4 * pixel + 1] == new[pixel * 4 + 1]);
    assert(base[4 * pixel + 1] == base[pixel * 4 + 1]);
    assert(new[4 * pixel + 2] == new[pixel * 4 + 2]);
    assert(base[4 * pixel + 2] == base[pixel * 4 + 2]);
    if pixel_changed(new, base, pixel) {
        if apart(new[pixel * 4], base[pixel * 4]) {
            assert(distance(new[4 * pixel + 0], base[4 * pixel + 0]) > 16);
        } else if apart(new[pixel * 4 + 1], base[pixel * 4 + 1]) {
            assert(distance(new[4 * pixel + 1], base[4 * pixel + 1]) > 16);
        } else {
            assert(distance(new[4 * pixel + 2], base[4 * pixel + 2]) > 16);
        }
    }
    if colour_moved(new, base, pixel) {
        let c = choose|c: int|
            0 <= c < 3 && distance(#[trigger] new[4 * pixel + c], base[4 * pixel + c]) > 16;
        assert(c == 0 || c == 1 || c == 2);
    }
}

proof fn lemma_changed_pixels(new: Seq<u8>, base: Seq<u8>, n: nat)
    ensures
        changed_pixels(new, base, n) == below_number(n).filter(
            |p: int| colour_moved(new, base, p),
        ).len(),
    decreases n,
{
    reveal(Seq::filter);
    if n > 0 {
        lemma_changed_pixels(new, base, (n - 1) as nat);
        lemma_pixel_changed(new, base, n - 1);
        assert(below_number(n).drop_last() =~= below_number((n - 1) as nat));
    }
}

/// A comparison of images of one size counts exactly the pixels of which red, green
/// or blue has moved by more than 16, however little the others have. If it paints,
/// it paints those magenta and leaves every other byte as it is.
pub proof fn law_comparison_counts_moved_pixels(
    new: Pixels,
    base: Pixels,
    paint: bool,
    r: Comparison,
)
    requires
        new.well_formed(),
        base.well_formed(),
        compare.ensures((&new, &base, paint), r),
    ensures
        r is Compared <==> new.width == base.width && new.height == base.height,
        r matches Comparison::Compared { changed, total, overlay: painted } ==> {
            &&& total == new.width * new.height
            &&& changed == below_number(total as nat).filter(
                |p: int| colour_moved(new.data@, base.data@, p),
            ).len()
            &&& painted is Some <==> paint
            &&& painted matches Some(data) ==> data@.len() == new.data@.len() && forall|i: int|
                0 <= i < data@.len() ==> #[trigger] data@[i] == if colour_moved(
                    new.data@,
                    base.data@,
                    i / 4,
                ) {
                    if i % 4 == 1 {
                        0u8
                    } else {
                        255u8
                    }
                } else {
                    new.data@[i]
                }
        },
{
    if let Comparison::Compared { changed, total, overlay: painted } = r {
        lemma_changed_pixels(new.data@, base.data@, total as nat);
        assert forall|i: int| true implies #[trigger] pixel_changed(new.data@, base.data@, i)
            == colour_moved(new.data@, base.data@, i) by {
            lemma_pixel_changed(new.data@, base.data@, i);
        }
    }
}

/// One colour of one pixel that has moved by more than 16 is enough for a change to
/// be found.
pub proof fn law_one_moved_colour_is_found(
    new: Pixels,
    base: Pixels,
    paint: bool,
    r: Comparison,
    pixel: int,
    c: int,
)
    requires
        new.well_formed(),
        base.well_formed(),
        compare.ensures((&new, &base, paint), r),
        new.width == base.width,
        new.height == base.height,
        0 <= pixel < new.width * new.height,
        0 <= c < 3,
        distance(new.data@[4 * pixel + c], base.data@[4 * pixel + c]) > 16,
    ensures
        r matches Comparison::Compared { changed, total, overlay: painted } && changed > 0,
{
    law_comparison_counts_moved_pixels(new, base, paint, r);
    let total = (new.width * new.height) as nat;
    let keep = |p: int| colour_moved(new.data@, base.data@, p);
    assert(keep(pixel));
    assert(below_number(total)[pixel] == pixel);
    below_number(total).lemma_filter_contains_rev(keep, pixel);
}

/// A pixel that the system drew as blue, green, red comes out as red, green, blue,
/// and opaque.
pub proof fn law_red_and_blue_change_places(data: Vec<u8>, out: Vec<u8>, p: int)
    requires
        data@.len() % 4 == 0,
        bgr_to_rgb.ensures((data,), out),
        0 <= p,
        4 * p < data@.len(),
    ensures
        out@.len() == data@.len(),
        out@[4 * p] == data@[4 * p + 2],
        out@[4 * p + 1] == data@[4 * p + 1],
        out@[4 * p + 2] == data@[4 * p],
        out@[4 * p + 3] == 255,
{
}

/// The rows that the system drew keep their size and their order; only the colours
/// change places.
pub proof fn law_drawn_rows_are_taken_over(
    scanlines: i32,
    buffer: Vec<u8>,
    width: u32,
    height: u32,
    r: Result<Pixels, CaptureError>,
    p: int,
)
    requires
        buffer@.len() == width * height * 4,
        read_pixels.ensures((scanlines, buffer, width, height), r),
    ensures
        r is Ok <==> scanlines != 0,
        r matches Ok(image) ==> {
            &&& image.width == width && image.height == height
            &&& image.data@.len() == buffer@.len()
            &&& 0 <= p < width * height ==> {
                &&& image.data@[4 * p] == buffer@[4 * p + 2]
                &&& image.data@[4 * p + 1] == buffer@[4 * p + 1]
                &&& image.data@[4 * p + 2] == buffer@[4 * p]
                &&& image.data@[4 * p + 3] == 255
            }
        },
{
}

/// A pixel of a frame is found a whole pitch further for each row, its colours come
/// in the order red, green, blue, and it is opaque.
pub proof fn law_frame_rows_lie_a_pitch_apart(
    data: &[u8],
    pitch: usize,
    width: u32,
    height: u32,
    r: Pixels,
    x: int,
    y: int,
)
    requires
        width * 4 <= pitch,
        pitch * height <= data@.len(),
        read_frame.ensures((data, pitch, width, height), r),
        0 <= x < width,
        0 <= y < height,
    ensures
        r.width == width && r.height == height,
        r.data@[4 * (y * width + x)] == data@[pitch * y + 4 * x + 2],
        r.data@[4 * (y * width + x) + 1] == data@[pitch * y + 4 * x + 1],
        r.data@[4 * (y * width + x) + 2] == data@[pitch * y + 4 * x],
        r.data@[4 * (y * width + x) + 3] == 255,
{
    assert(y * pitch == pitch * y) by (nonlinear_arith);
    assert(r.byte(x, y, 0) == data@[y * pitch + x * 4 + 2]);
    assert(r.byte(x, y, 1) == data@[y * pitch + x * 4 + 1]);
    assert(r.byte(x, y, 2) == data@[y * pitch + x * 4]);
    assert(r.byte(x, y, 3) == 255);
}

/// What is cut out of an image is each of its pixels that lies in the rectangle, at
/// its distance from the corner of the rectangle, and nothing else.
pub proof fn law_crop_keeps_what_lies_inside(
    image: Pixels,
    x: u32,
    y: u32,
    width: u32,
    height: u32,
    r: Pixels,
)
    requires
        image.well_formed(),
        crop.ensures((&image, x, y, width, height), r),
    ensures
        r.data@.len() == r.width * r.height * 4,
        forall|a: int|
            0 <= a ==> (#[trigger] within(a, r.width) <==> a < width && x + a < image.width),
        forall|b: int|
            0 <= b ==> (#[trigger] within(b, r.height) <==> b < height && y + b < image.height),
        forall|a: int, b: int, c: int|
            0 <= a < r.width && 0 <= b < r.height && 0 <= c < 4 ==> r.data@[4 * (b * r.width + a)
                + c] == #[trigger] image.byte(x + a, y + b, c),
        forall|a: int, b: int, c: int|
            #[trigger] image.byte(a, b, c) == image.data@[4 * (b * image.width + a) + c],
{
    assert forall|a: int, b: int, c: int|
        0 <= a < r.width && 0 <= b < r.height && 0 <= c < 4 implies r.data@[4 * (b * r.width + a)
        + c] == #[trigger] image.byte(x + a, y + b, c) by {
        assert(r.byte(a, b, c) == image.byte(x + a, y + b, c));
    }
}

/// Whether a distance from an edge lies within an extent.
pub open spec fn within(a: int, extent: u32) -> bool {
    a < extent
}

/// A region that begins left of the screen or above it is cut out as if it began at
/// the border: it loses nothing of its size on that account.
pub proof fn law_region_begins_on_the_screen(
    full: Pixels,
    x: i32,
    y: i32,
    width: u32,
    height: u32,
    r: Pixels,
)
    requires
        full.well_formed(),
        crop_region.ensures((&full, x, y, width, height), r),
    ensures
        x <= 0 && width <= full.width ==> r.width == width,
        y <= 0 && height <= full.height ==> r.height == height,
        forall|a: int|
            0 <= a ==> (#[trigger] within(a, r.width) <==> a < width && (x <= 0 || x + a
                < full.width) && a < full.width),
        forall|b: int|
            0 <= b ==> (#[trigger] within(b, r.height) <==> b < height && (y <= 0 || y + b
                < full.height) && b < full.height),
{
}

/// Each pixel of a region is that of the screen, counted from the corner of the
/// region, or from the border where the corner lies beyond it.
pub proof fn law_region_shows_the_screen(
    full: Pixels,
    x: i32,
    y: i32,
    width: u32,
    height: u32,
    r: Pixels,
    a: int,
    b: int,
    c: int,
)
    requires
        full.well_formed(),
        crop_region.ensures((&full, x, y, width, height), r),
        0 <= a < r.width,
        0 <= b < r.height,
        0 <= c < 4,
    ensures
        x >= 0 && y >= 0 ==> r.data@[4 * (b * r.width + a) + c] == full.data@[4 * ((y + b)
            * full.width + (x + a)) + c],
        x <= 0 && y <= 0 ==> r.data@[4 * (b * r.width + a) + c] == full.data@[4 * (b * full.width
            + a) + c],
        x >= 0 && y <= 0 ==> r.data@[4 * (b * r.width + a) + c] == full.data@[4 * (b * full.width
            + (x + a)) + c],
        x <= 0 && y >= 0 ==> r.data@[4 * (b * r.width + a) + c] == full.data@[4 * ((y + b)
            * full.width + a) + c],
{
    assert(r.byte(a, b, c) == full.byte(at_least_zero(x) + a, at_least_zero(y) + b, c));
}

/// A window is captured from its monitor exactly where its left upper corner, moved
/// to the border if need be, lies on it; it is then as large as itself, but for what
/// hangs over.
pub proof fn law_window_is_cut_out_of_its_monitor(
    monitor: Pixels,
    left: i32,
    top: i32,
    right: i32,
    bottom: i32,
    r: Result<Pixels, CaptureError>,
)
    requires
        monitor.well_formed(),
        i32::MIN <= right - left <= i32::MAX,
        i32::MIN <= bottom - top <= i32::MAX,
        capture_window_region.ensures((&monitor, left, top, right, bottom), r),
    ensures
        r is Ok <==> left < monitor.width && top < monitor.height && monitor.width > 0
            && monitor.height > 0,
        r matches Err(e) ==> e is Failed && e.message() == "window is off-screen"@,
        r matches Ok(image) ==> {
            &&& image.data@.len() == image.width * image.height * 4
            &&& 0 <= left < right <= monitor.width ==> image.width == right - left
            &&& 0 <= top < bottom <= monitor.height ==> image.height == bottom - top
            &&& 0 <= left < monitor.width < right ==> image.width == monitor.width - left
            &&& 0 <= top < monitor.height < bottom ==> image.height == monitor.height - top
            &&& left < 0 && 1 <= right - left <= monitor.width ==> image.width == right - left
            &&& top < 0 && 1 <= bottom - top <= monitor.height ==> image.height == bottom - top
            &&& right <= left ==> image.width == 1
            &&& bottom <= top ==> image.height == 1
        },
{
}

/// The pixels of a captured window are those of its monitor, counted from its
/// corner.
pub proof fn law_window_shows_its_monitor(
    monitor: Pixels,
    left: i32,
    top: i32,
    right: i32,
    bottom: i32,
    image: Pixels,
    a: int,
    b: int,
    c: int,
)
    requires
        monitor.well_formed(),
        i32::MIN <= right - left <= i32::MAX,
        i32::MIN <= bottom - top <= i32::MAX,
        capture_window_region.ensures((&monitor, left, top, right, bottom), Ok(image)),
        0 <= a < image.width,
        0 <= b < image.height,
        0 <= c < 4,
    ensures
        left >= 0 && top >= 0 ==> image.data@[4 * (b * image.width + a) + c] == monitor.data@[4 * ((
        top + b) * monitor.width + (left + a)) + c],
        left <= 0 && top <= 0 ==> image.data@[4 * (b * image.width + a) + c] == monitor.data@[4 * (b
            * monitor.width + a) + c],
        left >= 0 && top <= 0 ==> image.data@[4 * (b * image.width + a) + c] == monitor.data@[4 * (b
            * monitor.width + (left + a)) + c],
        left <= 0 && top >= 0 ==> image.data@[4 * (b * image.width + a) + c] == monitor.data@[4 * ((
        top + b) * monitor.width + a) + c],
{
    assert(image.byte(a, b, c) == monitor.byte(
        at_least_zero(left) + a,
        at_least_zero(top) + b,
        c,
    ));
}

/// An item is captured in its own size, if both of its sides are positive.
pub proof fn law_size_of_an_item_is_kept(
    width: i32,
    height: i32,
    r: Result<(u32, u32), CaptureError>,
)
    requires
        check_size.ensures((width, height), r),
    ensures
        r is Ok <==> width > 0 && height > 0,
        r matches Ok(size) ==> size.0 as int == width && size.1 as int == height,
        r matches Err(e) ==> e is Failed,
{
}

/// A wait for frames fails exactly where the first one did not come. Once it came,
/// the waits end 300 ms after it at the latest, and the latest frame is taken.
pub proof fn law_frames_settle(since_first: Option<u64>, timed_out: bool, r: FrameStep)
    requires
        capture_item.ensures((since_first, timed_out), r),
    ensures
        r is Fail <==> since_first is None && timed_out,
        r is Take <==> since_first is Some && (timed_out || since_first->0 >= 300),
        r matches FrameStep::Wait(ms) ==> !timed_out && match since_first {
            None => ms == 1500,
            Some(t) => t + ms == 300,
        },
{
}

/// The error of a capture that failed both ways quotes both failures, and is of the
/// category of the first: whoever asks for a window that does not exist is told so.
pub proof fn law_both_failures_are_told(
    primary: CaptureError,
    fallback: CaptureError,
    r: CaptureError,
)
    requires
        combined.ensures((primary, fallback), r),
    ensures
        r.message() == "WGC: "@ + primary.message() + "; GDI fallback: "@ + fallback.message(),
        primary is NotFound ==> r is NotFound,
        primary is Unsupported ==> r is Unsupported,
        primary is Failed ==> r is Failed,
{
}

} // verus!
