//! Screen, window and region capture, encoded as WebP or PNG.

use vstd::prelude::*;

use crate::capture::Pixels;
use crate::number;
use crate::proto::wire::{Image, ImageFormat, RemoteError, RemoteErrorKind, Reply};
use crate::runner_core::{is_error, not_found, os_error, RemoteResult};
use crate::text;

verus! {

/// The error of the image codecs.
#[verifier::external_type_specification]
#[verifier::external_body]
pub struct ExImageError(image::ImageError);

/// The file that an image encodes to as PNG or as WebP, if it can be encoded.
pub uninterp spec fn image_file(width: u32, height: u32, data: Seq<u8>, png: bool) -> Option<
    Seq<u8>,
>;

/// The image that a file holds, if it can be decoded.
pub uninterp spec fn file_image(file: Seq<u8>) -> Option<(u32, u32, Seq<u8>)>;

/// From so many bytes on an image may not be decoded: the decoder does not set aside
/// more for its pixels.
pub const DECODER_BYTES: u32 = 0x2000_0000;

/// Whether decoding `file` gives back an image, unless the image is too large to be
/// decoded.
pub open spec fn holds(file: Seq<u8>, width: u32, height: u32, data: Seq<u8>) -> bool {
    data.len() < DECODER_BYTES ==> file_image(file) == Some((width, height, data))
}

/// Calls `image::ImageBuffer::write_to` with PNG or lossless WebP: whether it
/// works, and which bytes it writes, follows from the size and the pixels alone.
/// Neither format loses anything: `image::load_from_memory` and
/// `image::DynamicImage::to_rgba8` give the image back, up to the memory that the
/// decoder may use. Of larger images nothing more is said.
#[verifier::external_body]
fn write_image(width: u32, height: u32, data: &Vec<u8>, png: bool) -> (r: Result<
    Vec<u8>,
    image::ImageError,
>)
    requires
        data@.len() == width * height * 4,
    ensures
        match r {
            Ok(file) => image_file(width, height, data@, png) == Some(file@) && holds(
                file@,
                width,
                height,
                data@,
            ),
            Err(_) => image_file(width, height, data@, png) is None,
        },
{
    let format = if png { image::ImageFormat::Png } else { image::ImageFormat::WebP };
    let frame = image::ImageBuffer::<image::Rgba<u8>, &[u8]>::from_raw(width, height, data.as_slice());
    let mut file = std::io::Cursor::new(Vec::new());
    frame.expect("as many bytes as the size asks for").write_to(&mut file, format)?;
    Ok(file.into_inner())
}

/// Calls `image::load_from_memory` and `image::DynamicImage::to_rgba8`: whether it
/// works, and which pixels come out, follows from the file alone. There are four
/// bytes per pixel.
#[verifier::external_body]
fn read_image(file: &[u8]) -> (r: Result<(u32, u32, Vec<u8>), image::ImageError>)
    ensures
        match r {
            Ok(v) => file_image(file@) == Some((v.0, v.1, v.2@)) && v.2@.len() == v.0 * v.1 * 4,
            Err(_) => file_image(file@) is None,
        },
{
    let pixels = image::load_from_memory(file)?.to_rgba8();
    Ok((pixels.width(), pixels.height(), pixels.into_raw()))
}

/// The name of a format in messages.
pub open spec fn format_name(format: ImageFormat) -> Seq<char> {
    match format {
        ImageFormat::Webp => "WebP"@,
        ImageFormat::Png => "Png"@,
    }
}

/// The file that an image encodes to in that format.
pub open spec fn encoded(image: Pixels, format: ImageFormat) -> Option<Seq<u8>> {
    image_file(image.width, image.height, image.data@, format == ImageFormat::Png)
}

/// Encodes an image in that format; decoding the file gives the image back.
pub fn encode(image: &Pixels, format: ImageFormat) -> (r: RemoteResult<Vec<u8>>)
    requires
        image.well_formed(),
    ensures
        match r {
            Ok(file) => encoded(*image, format) == Some(file@) && holds(
                file@,
                image.width,
                image.height,
                image.data@,
            ),
            Err(e) => encoded(*image, format) is None && e.kind == RemoteErrorKind::Os && exists|
                cause: Seq<char>,
            | #[trigger]
                (format_name(format) + " encode failed: "@ + cause) == e.message@,
        },
{
    match write_image(image.width, image.height, &image.data, format == ImageFormat::Png) {
        Ok(file) => Ok(file),
        Err(e) => {
            let name = match format {
                ImageFormat::Webp => "WebP",
                ImageFormat::Png => "Png",
            };
            let cause = e.to_string();
            let message = text::join3(name, " encode failed: ", cause.as_str());
            assert(message@ == format_name(format) + " encode failed: "@ + cause@);
            Err(os_error(message.as_str()))
        },
    }
}

/// Decodes an image file, or tells why it cannot be decoded.
pub fn decode(file: &[u8]) -> (r: Result<Pixels, String>)
    ensures
        match r {
            Ok(image) => image.well_formed() && file_image(file@) == Some(
                (image.width, image.height, image.data@),
            ),
            Err(_) => file_image(file@) is None,
        },
{
    match read_image(file) {
        Ok((width, height, data)) => Ok(Pixels { width, height, data }),
        Err(e) => Err(e.to_string()),
    }
}

/// The format that a screenshot comes in: the preferred one, and PNG where WebP
/// cannot take the image.
pub open spec fn chosen_format(image: Pixels, preferred: Option<ImageFormat>) -> ImageFormat {
    if preferred == Some(ImageFormat::Png) || encoded(image, ImageFormat::Webp) is None {
        ImageFormat::Png
    } else {
        ImageFormat::Webp
    }
}

/// Encodes a captured image as the reply to a screenshot request. WebP is the
/// default; an image that its encoder rejects comes as PNG. Either way decoding what
/// is replied gives the image back.
pub fn screenshot(image: &Pixels, preferred: Option<ImageFormat>) -> (r: RemoteResult<Reply>)
    requires
        image.well_formed(),
    ensures
        ({
            let format = chosen_format(*image, preferred);
            match r {
                Ok(reply) => reply matches Reply::Image(shot) && shot.format == format
                    && shot.width == image.width && shot.height == image.height && encoded(
                    *image,
                    format,
                ) == Some(shot.data@) && holds(
                    shot.data@,
                    image.width,
                    image.height,
                    image.data@,
                ),
                Err(e) => encoded(*image, format) is None && e.kind == RemoteErrorKind::Os
                    && exists|cause: Seq<char>| #[trigger]
                    (format_name(format) + " encode failed: "@ + cause) == e.message@,
            }
        }),
{
    let (width, height) = (image.width, image.height);
    let png = match preferred {
        Some(ImageFormat::Png) => true,
        _ => false,
    };
    if !png {
        if let Ok(data) = encode(image, ImageFormat::Webp) {
            return Ok(Reply::Image(Image { format: ImageFormat::Webp, width, height, data }));
        }
    }
    match encode(image, ImageFormat::Png) {
        Ok(data) => Ok(Reply::Image(Image { format: ImageFormat::Png, width, height, data })),
        Err(e) => Err(e),
    }
}

/// What remains of the two attempts at a capture: on a system with a second way to
/// capture, its result, and an error that tells of both; else the first error.
pub fn fallback<T>(primary: RemoteError, secondary: Option<RemoteResult<T>>) -> (r: RemoteResult<T>)
    ensures
        match secondary {
            None => r == Err::<T, RemoteError>(primary),
            Some(Ok(image)) => r == Ok::<T, RemoteError>(image),
            Some(Err(second)) => r matches Err(e) && is_error(
                e,
                RemoteErrorKind::Os,
                "capture failed (xcap: "@ + primary.message@ + "; gdi fallback: "@ + second.message@
                    + ")"@,
            ),
        },
{
    match secondary {
        None => Err(primary),
        Some(Ok(image)) => Ok(image),
        Some(Err(second)) => {
            let mut m = text::join3(
                "capture failed (xcap: ",
                primary.message.as_str(),
                "; gdi fallback: ",
            );
            m.append(second.message.as_str());
            m.append(")");
            Err(os_error(m.as_str()))
        },
    }
}

/// Whether no window has that handle.
pub open spec fn is_absent(handles: Seq<u32>, id: u64) -> bool {
    forall|k: int| 0 <= k < handles.len() ==> #[trigger] handles[k] != id
}

/// The position of the first window with that handle.
pub fn find_window(handles: &[u32], id: u64) -> (r: RemoteResult<usize>)
    ensures
        match r {
            Ok(at) => at < handles@.len() && handles@[at as int] == id && forall|k: int|
                0 <= k < at ==> handles@[k] != id,
            Err(e) => (forall|k: int| 0 <= k < handles@.len() ==> handles@[k] != id) && is_error(
                e,
                RemoteErrorKind::NotFound,
                "window "@ + number::decimal(id as nat) + " not found"@,
            ),
        },
        r is Ok ==> is_absent(handles@.take(r->Ok_0 as int), id),
        r is Err ==> is_absent(handles@, id),
{
    let mut at: usize = 0;
    while at < handles.len()
        invariant
            at <= handles@.len(),
            forall|k: int| 0 <= k < at ==> handles@[k] != id,
        decreases handles@.len() - at,
    {
        if handles[at] as u64 == id {
            return Ok(at);
        }
        at = at + 1;
    }
    Err(
        not_found(
            text::join3("window ", number::decimal_text(id).as_str(), " not found").as_str(),
        ),
    )
}

/// Whether two images are the same.
pub open spec fn same_image(a: Pixels, b: Pixels) -> bool {
    a.width == b.width && a.height == b.height && a.data@ == b.data@
}

/// Compares two images.
fn images_equal(a: &Pixels, b: &Pixels) -> (r: bool)
    ensures
        r == same_image(*a, *b),
{
    if a.width != b.width || a.height != b.height || a.data.len() != b.data.len() {
        return false;
    }
    let mut i: usize = 0;
    while i < a.data.len()
        invariant
            i <= a.data@.len(),
            a.data@.len() == b.data@.len(),
            forall|k: int| 0 <= k < i ==> a.data@[k] == b.data@[k],
        decreases a.data@.len() - i,
    {
        if a.data[i] != b.data[i] {
            return false;
        }
        i = i + 1;
    }
    assert(a.data@ =~= b.data@);
    true
}

/// Waits for a screen that has finished drawing: for two captures in a row that
/// are the same and, where it was asked for, differ from what was there first.
pub struct Settle {
    /// The first capture.
    pub first: Pixels,
    /// The latest capture, if there was another one.
    pub later: Option<Pixels>,
    /// Whether a change from the first capture is still awaited.
    pub awaits_change: bool,
}

impl Settle {
    /// The latest capture.
    pub open spec fn latest(self) -> Pixels {
        match self.later {
            Some(frame) => frame,
            None => self.first,
        }
    }

    /// Whether a capture ends the wait.
    pub open spec fn settled(self, frame: Pixels) -> bool {
        same_image(frame, self.latest()) && !(self.awaits_change && same_image(frame, self.first))
    }

    /// Starts from a first capture.
    pub fn new(frame: Pixels, awaits_change: bool) -> (s: Self)
        ensures
            s == (Settle { first: frame, later: None, awaits_change }),
    {
        Settle { first: frame, later: None, awaits_change }
    }

    /// Takes the next capture, and says whether it is the one to answer with. Once
    /// the time is up, any capture is.
    pub fn accept(&mut self, frame: Pixels, time_is_up: bool) -> (done: bool)
        ensures
            done == (time_is_up || old(self).settled(frame)),
            final(self).latest() == frame,
            final(self).first == old(self).first,
            final(self).awaits_change == (old(self).awaits_change && same_image(
                frame,
                old(self).first,
            )),
    {
        let unchanged = images_equal(&frame, &self.first);
        let stable = match &self.later {
            Some(latest) => images_equal(&frame, latest),
            None => unchanged,
        };
        let awaits = self.awaits_change && unchanged;
        self.later = Some(frame);
        self.awaits_change = awaits;
        time_is_up || (stable && !awaits)
    }

    /// The capture to answer with.
    pub fn into_frame(self) -> (frame: Pixels)
        ensures
            frame == self.latest(),
    {
        match self.later {
            Some(frame) => frame,
            None => self.first,
        }
    }
}

/// A screenshot comes in the format that is preferred, and as WebP if none is; where
/// that cannot be written, as PNG. Its size is that of the image, and what it holds
/// decodes to the image.
pub proof fn law_screenshot_holds_the_image(
    image: &Pixels,
    preferred: Option<ImageFormat>,
    webp: RemoteResult<Vec<u8>>,
    r: RemoteResult<Reply>,
    file: &[u8],
    back: Result<Pixels, String>,
)
    requires
        image.well_formed(),
        encode.ensures((image, ImageFormat::Webp), webp),
        screenshot.ensures((image, preferred), r),
        decode.ensures((file,), back),
        r matches Ok(Reply::Image(shot)) ==> file@ == shot.data@,
    ensures
        r matches Ok(reply) ==> (reply matches Reply::Image(shot) && {
            &&& shot.width == image.width && shot.height == image.height
            &&& shot.format == ImageFormat::Webp <==> preferred != Some(ImageFormat::Png) && webp
                is Ok
            &&& image.data@.len() < 0x2000_0000 ==> (back matches Ok(b) && b.width == image.width
                && b.height == image.height && b.data@ == image.data@)
        }),
        preferred != Some(ImageFormat::Png) && webp is Ok ==> r is Ok,
{
}

/// A second way to capture replaces the first, if there is one; an error tells of all
/// that was tried.
pub proof fn law_second_capture_replaces_the_first<T>(
    primary: RemoteError,
    second: Option<RemoteResult<T>>,
    r: RemoteResult<T>,
)
    requires
        call_ensures(fallback::<T>, (primary, second), r),
    ensures
        second is None ==> r == Err::<T, RemoteError>(primary),
        second matches Some(Ok(image)) ==> r == Ok::<T, RemoteError>(image),
        r is Ok <==> (second matches Some(s) && s is Ok),
{
}

/// A window is found by its handle, the first of that handle, and only by it.
pub proof fn law_window_is_found_by_handle(handles: &[u32], id: u64, k: int, r: RemoteResult<usize>)
    requires
        find_window.ensures((handles, id), r),
    ensures
        r is Ok <==> exists|i: int| 0 <= i < handles@.len() && #[trigger] handles@[i] == id,
        r matches Ok(at) ==> at < handles@.len() && handles@[at as int] == id && (0 <= k < at
            ==> handles@[k] != id),
        r matches Err(e) ==> e.kind == RemoteErrorKind::NotFound,
{
    match r {
        Ok(at) => {
            let before = handles@.take(at as int);
            assert(is_absent(before, id));
            assert(0 <= k < at ==> before[k] == handles@[k]);
            assert(handles@[at as int] == id);
        },
        Err(_) => {
            assert(is_absent(handles@, id));
        },
    }
}

/// A wait ends with the first capture that is the same as the one before it, and, if a
/// change is awaited, after one that differed from the first; or when the time is up.
/// What it answers with is the last capture.
pub proof fn law_settled_screen_is_captured(
    settle: &mut Settle,
    frame: Pixels,
    late: bool,
    done: bool,
)
    requires
        call_ensures(Settle::accept, (settle, frame, late), done),
    ensures
        late ==> done,
        final(settle).latest() == frame && final(settle).first == old(settle).first,
        ({
            let (a, b) = (frame, old(settle).latest());
            let alike = a.width == b.width && a.height == b.height && a.data@ == b.data@;
            let first = old(settle).first;
            let moved = !(a.width == first.width && a.height == first.height && a.data@
                == first.data@);
            &&& !late ==> (done <==> alike && (old(settle).awaits_change ==> moved))
            &&& final(settle).awaits_change <==> old(settle).awaits_change && !moved
        }),
{
}

} // verus!
