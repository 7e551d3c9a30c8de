//! Decoded images: what a caller can read of one, how one is made from raw
//! pixels, and how one is written out through the codec.

use crate::cursor::copy_bytes;
use crate::errors::or_report;
use crate::errors::reported;
use crate::errors::set_err;
use crate::errors::ErrorTable;
use crate::format::format_of_tag;
use crate::format::u8_to_format;
use crate::format::unknown_format_message;
use crate::format::unknown_format_text;
use crate::stream::ReadWrap;
use crate::stream::WriteWrap;
use image::ColorType;
use image::DynamicImage;
use image::ImageFormat;
use image::ImageReader;
use std::io::BufReader;
use std::io::Read;
use std::io::Seek;
use std::io::Write;
use vstd::prelude::*;
use vstd::slice::slice_subrange;
use vstd::string::StringExecFns;

verus! {

#[verifier::external_type_specification]
pub struct ExColorType(ColorType);

#[verifier::external_type_specification]
#[verifier::external_body]
pub struct ExDynamicImage(DynamicImage);

/// The pixel buffer of an image, byte by byte, in native byte order.
pub uninterp spec fn pixel_bytes(image: DynamicImage) -> Seq<u8>;

/// The number of pixels in a row of an image.
pub uninterp spec fn image_width(image: DynamicImage) -> u32;

/// The number of rows of an image.
pub uninterp spec fn image_height(image: DynamicImage) -> u32;

/// The pixel layout of an image.
pub uninterp spec fn image_color(image: DynamicImage) -> ColorType;

/// `DynamicImage::as_bytes` lends the whole pixel buffer, without a copy.
pub assume_specification[ DynamicImage::as_bytes ](image: &DynamicImage) -> (bytes: &[u8])
    ensures
        bytes@ == pixel_bytes(*image),
;

/// `DynamicImage::width` is the width the image was made with.
pub assume_specification[ DynamicImage::width ](image: &DynamicImage) -> (width: u32)
    ensures
        width == image_width(*image),
;

/// `DynamicImage::height` is the height the image was made with.
pub assume_specification[ DynamicImage::height ](image: &DynamicImage) -> (height: u32)
    ensures
        height == image_height(*image),
;

/// `DynamicImage::color` is the layout of the variant that holds the pixels.
pub assume_specification[ DynamicImage::color ](image: &DynamicImage) -> (color: ColorType)
    ensures
        color == image_color(*image),
;

/// The bytes that one pixel of a layout takes.
pub open spec fn pixel_size(color: ColorType) -> u8 {
    match color {
        ColorType::L8 => 1,
        ColorType::La8 => 2,
        ColorType::Rgb8 => 3,
        ColorType::Rgba8 => 4,
        ColorType::L16 => 2,
        ColorType::La16 => 4,
        ColorType::Rgb16 => 6,
        ColorType::Rgba16 => 8,
        ColorType::Rgb32F => 12,
        ColorType::Rgba32F => 16,
        _ => 0,
    }
}

/// Whether a layout has an alpha channel.
pub open spec fn carries_alpha(color: ColorType) -> bool {
    color is La8 || color is Rgba8 || color is La16 || color is Rgba16 || color is Rgba32F
}

/// Whether a layout has colour channels, as against luminance alone.
pub open spec fn carries_color(color: ColorType) -> bool {
    !(color is L8 || color is La8 || color is L16 || color is La16)
}

/// The channels of a layout: one for luminance or three for colour, and one
/// more for alpha.
pub open spec fn channels(color: ColorType) -> u8 {
    match color {
        ColorType::L8 | ColorType::L16 => 1,
        ColorType::La8 | ColorType::La16 => 2,
        ColorType::Rgb8 | ColorType::Rgb16 | ColorType::Rgb32F => 3,
        ColorType::Rgba8 | ColorType::Rgba16 | ColorType::Rgba32F => 4,
        _ => 1,
    }
}

/// `ColorType::bytes_per_pixel` is a table over the ten layouts.
pub assume_specification[ ColorType::bytes_per_pixel ](color: ColorType) -> (size: u8)
    ensures
        size == pixel_size(color),
;

/// `ColorType::has_alpha` holds of the five layouts with an alpha channel.
pub assume_specification[ ColorType::has_alpha ](color: ColorType) -> (alpha: bool)
    ensures
        alpha == carries_alpha(color),
;

/// `ColorType::has_color` holds of all layouts but the four of luminance.
pub assume_specification[ ColorType::has_color ](color: ColorType) -> (colored: bool)
    ensures
        colored == carries_color(color),
;

/// `ColorType::channel_count` counts the channels of the layout.
pub assume_specification[ ColorType::channel_count ](color: ColorType) -> (count: u8)
    ensures
        count == channels(color),
;

pub const COLORTYPE_L8: u8 = 1;

pub const COLORTYPE_LA8: u8 = 2;

pub const COLORTYPE_RGB8: u8 = 3;

pub const COLORTYPE_RGBA8: u8 = 4;

pub const COLORTYPE_L16: u8 = 5;

pub const COLORTYPE_LA16: u8 = 6;

pub const COLORTYPE_RGB16: u8 = 7;

pub const COLORTYPE_RGBA16: u8 = 8;

pub const COLORTYPE_RGB32F: u8 = 9;

pub const COLORTYPE_RGBA32F: u8 = 10;

/// The number by which callers know a layout, for the ten that have one.
pub open spec fn color_code(color: ColorType) -> Option<u8> {
    match color {
        ColorType::L8 => Some(COLORTYPE_L8),
        ColorType::La8 => Some(COLORTYPE_LA8),
        ColorType::Rgb8 => Some(COLORTYPE_RGB8),
        ColorType::Rgba8 => Some(COLORTYPE_RGBA8),
        ColorType::L16 => Some(COLORTYPE_L16),
        ColorType::La16 => Some(COLORTYPE_LA16),
        ColorType::Rgb16 => Some(COLORTYPE_RGB16),
        ColorType::Rgba16 => Some(COLORTYPE_RGBA16),
        ColorType::Rgb32F => Some(COLORTYPE_RGB32F),
        ColorType::Rgba32F => Some(COLORTYPE_RGBA32F),
        _ => None,
    }
}

/// What a caller may know of an image without its pixels.
#[derive(Clone, Copy, Debug, PartialEq, Eq, Structural)]
pub struct ImageMetrics {
    pub bufsize: usize,
    pub width: u32,
    pub height: u32,
    pub color: u8,
    pub channels: u8,
    pub bytes_per_pixel: u8,
    pub has_alpha: bool,
    pub has_color: bool,
}

/// Whether `metrics` is the record of `image`: its size, the number of its
/// layout, what follows from the layout, and the length of its pixel buffer.
pub open spec fn describes(metrics: ImageMetrics, image: DynamicImage) -> bool {
    let color = image_color(image);
    &&& metrics.bufsize == pixel_bytes(image).len()
    &&& metrics.width == image_width(image)
    &&& metrics.height == image_height(image)
    &&& Some(metrics.color) == color_code(color)
    &&& metrics.channels == channels(color)
    &&& metrics.bytes_per_pixel == pixel_size(color)
    &&& metrics.has_alpha == carries_alpha(color)
    &&& metrics.has_color == carries_color(color)
}

/// The record of an image, whole or not at all.
///
/// Without an image the message `'image' is null` is stored for `thread`
/// and `None` is returned. An image whose layout has no number gives
/// `Unsupported color format` and `None`. Otherwise the record describes the
/// image and no message is stored.
pub fn libimage_metrics(image: Option<&DynamicImage>, errors: &mut ErrorTable, thread: u64) -> (metrics:
    Option<ImageMetrics>)
    ensures
        match image {
            None => metrics is None && final(errors)@ == old(errors)@.insert(
                thread,
                "'image' is null"@,
            ),
            Some(image) => match color_code(image_color(*image)) {
                Some(_) => metrics is Some && describes(metrics->0, *image) && final(errors)@
                    == old(errors)@,
                None => metrics is None && final(errors)@ == old(errors)@.insert(
                    thread,
                    "Unsupported color format"@,
                ),
            },
        },
{
    let Some(image) = image else {
        set_err(errors, thread, String::from_str("'image' is null"));
        return None;
    };
    Some(
        ImageMetrics {
            width: image.width(),
            height: image.height(),
            color: match image.color() {
                ColorType::L8 => COLORTYPE_L8,
                ColorType::La8 => COLORTYPE_LA8,
                ColorType::Rgb8 => COLORTYPE_RGB8,
                ColorType::Rgba8 => COLORTYPE_RGBA8,
                ColorType::L16 => COLORTYPE_L16,
                ColorType::La16 => COLORTYPE_LA16,
                ColorType::Rgb16 => COLORTYPE_RGB16,
                ColorType::Rgba16 => COLORTYPE_RGBA16,
                ColorType::Rgb32F => COLORTYPE_RGB32F,
                ColorType::Rgba32F => COLORTYPE_RGBA32F,
                _ => {
                    set_err(errors, thread, String::from_str("Unsupported color format"));
                    return None;
                },
            },
            bufsize: image.as_bytes().len(),
            has_alpha: image.color().has_alpha(),
            has_color: image.color().has_color(),
            channels: image.color().channel_count(),
            bytes_per_pixel: image.color().bytes_per_pixel(),
        },
    )
}

/// The pixel buffer of an image in native byte order, lent without a copy.
///
/// Without an image the message `'image' is null` is stored for `thread`
/// and `None` is returned.
pub fn libimage_as_bytes<'a>(
    image: Option<&'a DynamicImage>,
    errors: &mut ErrorTable,
    thread: u64,
) -> (bytes: Option<&'a [u8]>)
    ensures
        match image {
            None => bytes is None && final(errors)@ == old(errors)@.insert(
                thread,
                "'image' is null"@,
            ),
            Some(image) => bytes is Some && bytes->0@ == pixel_bytes(*image) && final(errors)@
                == old(errors)@,
        },
{
    let Some(image) = image else {
        set_err(errors, thread, String::from_str("'image' is null"));
        return None;
    };
    Some(image.as_bytes())
}

/// The length in a record is the length of the buffer that is lent: a
/// record that describes an image counts exactly the bytes of its pixels.
pub proof fn lemma_bufsize_counts_pixel_bytes(
    metrics: ImageMetrics,
    image: DynamicImage,
    bytes: Seq<u8>,
)
    requires
        describes(metrics, image),
        bytes == pixel_bytes(image),
    ensures
        metrics.bufsize == bytes.len(),
{
}

/// The flags of a record follow from the number of the layout alone: alpha
/// for the even numbers, colour for every layout but the two of luminance at
/// each depth.
pub proof fn lemma_flags_follow_from_layout(metrics: ImageMetrics, image: DynamicImage)
    requires
        describes(metrics, image),
    ensures
        1 <= metrics.color <= 10,
        metrics.has_alpha == (metrics.color % 2 == 0),
        metrics.has_color == !(metrics.color == COLORTYPE_L8 || metrics.color == COLORTYPE_LA8
            || metrics.color == COLORTYPE_L16 || metrics.color == COLORTYPE_LA16),
        metrics.channels == (if metrics.has_color {
            3int
        } else {
            1int
        }) + (if metrics.has_alpha {
            1int
        } else {
            0int
        }),
{
}

/// The pixels of an image as 8-bit RGBA, four bytes a pixel, row by row
/// from the top: what `DynamicImage::to_rgba8` computes from the image.
pub uninterp spec fn rgba8_pixels(image: DynamicImage) -> Seq<u8>;

/// The bytes that an image takes as 8-bit RGBA.
pub open spec fn rgba8_len(image: DynamicImage) -> nat {
    (image_width(image) * image_height(image) * 4) as nat
}

/// What is known of the conversion to 8-bit RGBA: it gives four bytes for
/// each pixel at least, and an image that is 8-bit RGBA already gives its
/// own pixel buffer.
pub open spec fn rgba8_conversion_known(image: DynamicImage) -> bool {
    &&& rgba8_pixels(image).len() >= rgba8_len(image)
    &&& image_color(image) is Rgba8 ==> rgba8_pixels(image) == pixel_bytes(image)
}

/// `DynamicImage::to_rgba8`, and the buffer of the image it returns. The
/// crate clones an image that is 8-bit RGBA and converts any other, pixel by
/// pixel, into a buffer of `width * height * 4` bytes; it panics where that
/// length is above `usize::MAX`.
#[verifier::external_body]
fn to_rgba8(image: &DynamicImage) -> (pixels: Vec<u8>)
    requires
        rgba8_len(*image) <= usize::MAX,
    ensures
        pixels@ == rgba8_pixels(*image),
        pixels@.len() >= rgba8_len(*image),
        image_color(*image) is Rgba8 ==> pixels@ == pixel_bytes(*image),
{
    image.to_rgba8().into_raw()
}

/// `DynamicImage::new_rgba8` makes an image of the given size in 8-bit RGBA
/// whose buffer holds `width * height * 4` zeros. It panics where that
/// length is above `usize::MAX`.
pub assume_specification[ DynamicImage::new_rgba8 ](w: u32, h: u32) -> (image: DynamicImage)
    requires
        w * h * 4 <= usize::MAX,
    ensures
        image_width(image) == w,
        image_height(image) == h,
        image_color(image) is Rgba8,
        pixel_bytes(image) == Seq::new((w * h * 4) as nat, |i: int| 0u8),
;

/// `DynamicImage::as_mut_rgba8`, and `copy_from_slice` on the buffer it
/// lends: the pixels of an 8-bit RGBA image are replaced by `bytes`, which
/// has their length. Size and layout stay.
#[verifier::external_body]
fn fill_rgba8(image: &mut DynamicImage, bytes: &[u8])
    requires
        image_color(*old(image)) is Rgba8,
        bytes@.len() == pixel_bytes(*old(image)).len(),
    ensures
        pixel_bytes(*final(image)) == bytes@,
        image_width(*final(image)) == image_width(*old(image)),
        image_height(*final(image)) == image_height(*old(image)),
        image_color(*final(image)) == image_color(*old(image)),
{
    image.as_mut_rgba8().unwrap().copy_from_slice(bytes)
}

/// Whether the buffer of an image holds its pixels and nothing behind them.
pub open spec fn well_sized(image: DynamicImage) -> bool {
    pixel_bytes(image).len() == image_width(image) * image_height(image) * pixel_size(
        image_color(image),
    )
}

/// `ImageReader::with_format` over a buffered reader of the source, and
/// `decode` on it. The reader only reads and seeks, so the source keeps its
/// kind and its bytes; where it stands afterwards is not known. The crate
/// decodes into a buffer of `width * height` pixels of the decoder's layout
/// and makes the image of that buffer.
#[verifier::external_body]
fn decode_as<R: Read + Seek>(read: &mut ReadWrap<R>, format: ImageFormat) -> (decoded: Result<
    DynamicImage,
    String,
>)
    ensures
        final(read).same_store(old(read)),
        decoded matches Ok(image) ==> well_sized(image),
{
    match ImageReader::with_format(BufReader::new(read), format).decode() {
        Ok(image) => Ok(image),
        Err(why) => Err(why.to_string()),
    }
}

/// `ImageReader::new` over a buffered reader of the source, then
/// `with_guessed_format` and `decode`. The reader only reads and seeks, so
/// the source keeps its kind and its bytes; where it stands afterwards is
/// not known.
#[verifier::external_body]
fn decode_guessing<R: Read + Seek>(read: &mut ReadWrap<R>) -> (decoded: Result<
    DynamicImage,
    String,
>)
    ensures
        final(read).same_store(old(read)),
{
    match ImageReader::new(BufReader::new(read)).with_guessed_format() {
        Ok(reader) => match reader.decode() {
            Ok(image) => Ok(image),
            Err(why) => Err(why.to_string()),
        },
        Err(why) => Err(why.to_string()),
    }
}

/// Whether the encoder of `format` is handed the buffer of an image of the
/// layout `color` as it is and panics where that buffer is not of the
/// image's size. The other encoders convert the image first or answer that
/// they do not take the layout.
pub open spec fn length_checked(format: ImageFormat, color: ColorType) -> bool {
    match format {
        ImageFormat::Png
        | ImageFormat::Pnm
        | ImageFormat::Tiff
        | ImageFormat::Ico
        | ImageFormat::OpenExr
        | ImageFormat::Avif => true,
        ImageFormat::Jpeg => color is L8 || color is Rgb8,
        ImageFormat::Gif | ImageFormat::Qoi => color is Rgb8 || color is Rgba8,
        ImageFormat::WebP | ImageFormat::Tga | ImageFormat::Bmp => color is L8 || color is La8
            || color is Rgb8 || color is Rgba8,
        ImageFormat::Farbfeld => color is Rgba16,
        _ => false,
    }
}

/// Whether the encoder of `format` panics on an image of the layout `color`
/// and the given size for want of pixels: that of OpenEXR on a float image
/// with one side of 0 and the other not, and that of AVIF on an image of
/// width 0 that it has to convert.
pub open spec fn pixels_missed(format: ImageFormat, color: ColorType, width: u32, height: u32) -> bool {
    match format {
        ImageFormat::OpenExr => (color is Rgb32F || color is Rgba32F) && ((width == 0) != (height
            == 0)),
        ImageFormat::Avif => width == 0 && (color is L8 || color is La8 || color is L16
            || color is La16 || color is Rgb16 || color is Rgba16),
        _ => false,
    }
}

/// Whether the encoder of `format` can be given `image`: it would not panic
/// on the length of the buffer nor for want of pixels.
pub open spec fn encodable(image: DynamicImage, format: ImageFormat) -> bool {
    &&& well_sized(image) || !length_checked(format, image_color(image))
    &&& !pixels_missed(format, image_color(image), image_width(image), image_height(image))
}

/// The message for an image whose buffer is not of its size.
pub const BAD_BUFFER: &'static str = "Image buffer does not match image size";

/// The message for an image without pixels where the encoder needs some.
pub const NO_PIXELS: &'static str = "Image has no pixels";

/// What is reported for an image that the encoder of `format` cannot be
/// given.
pub open spec fn refusal_text(image: DynamicImage, format: ImageFormat) -> Seq<char> {
    if well_sized(image) || !length_checked(format, image_color(image)) {
        NO_PIXELS@
    } else {
        BAD_BUFFER@
    }
}

/// `DynamicImage::write_to` into the sink. The crate's encoders document a
/// panic for a buffer that is not of the image's size; it strikes where an
/// encoder is handed the image's own buffer and compares the lengths first.
/// The encoder of OpenEXR panics on a float image with one side of 0, and
/// that of AVIF on an image of width 0 that it converts. Every other image
/// is answered by the encoder. The encoder only writes, flushes and seeks,
/// so the sink keeps its kind, a fixed range keeps its length and a growing
/// buffer loses no byte of its length.
#[verifier::external_body]
fn encode_as<W: Write + Seek>(
    image: &DynamicImage,
    write: &mut WriteWrap<W>,
    format: ImageFormat,
) -> (encoded: Result<(), String>)
    requires
        encodable(*image, format),
    ensures
        final(write).same_kind(old(write)),
        *old(write) is Buf ==> final(write).contents().len() == old(write).contents().len(),
        *old(write) is Expanding ==> final(write).contents().len() >= old(write).contents().len(),
{
    match image.write_to(write, format) {
        Ok(()) => Ok(()),
        Err(why) => Err(why.to_string()),
    }
}

/// Decodes an image from a source, in the format that its first bytes show.
///
/// Returns the image, or `None` where the source cannot be read or holds no
/// image that the codec knows: the codec's message is then stored for
/// `thread`. Without a source the message is `'read' is null`.
pub fn libimage_read_guess<R: Read + Seek>(
    read: Option<&mut ReadWrap<R>>,
    errors: &mut ErrorTable,
    thread: u64,
) -> (image: Option<DynamicImage>)
    ensures
        match read {
            None => image is None && final(errors)@ == old(errors)@.insert(
                thread,
                "'read' is null"@,
            ),
            Some(source) => {
                &&& final(source).same_store(source)
                &&& image is Some ==> final(errors)@ == old(errors)@
                &&& image is None ==> reported(old(errors)@, final(errors)@, thread)
            },
        },
{
    let Some(read) = read else {
        set_err(errors, thread, String::from_str("'read' is null"));
        return None;
    };
    or_report(decode_guessing(read), errors, thread)
}

/// Decodes an image from a source, in the format that the number `format`
/// names.
///
/// A number that names no format is refused before the source is touched,
/// with the message `Unknown image format: ` and the number. Otherwise the
/// image is returned, or `None` where the codec fails: its message is then
/// stored for `thread`. Without a source the message is `'read' is null`.
/// The buffer of an image that is returned is of the image's size.
pub fn libimage_read<R: Read + Seek>(
    read: Option<&mut ReadWrap<R>>,
    format: u8,
    errors: &mut ErrorTable,
    thread: u64,
) -> (image: Option<DynamicImage>)
    ensures
        match read {
            None => image is None && final(errors)@ == old(errors)@.insert(
                thread,
                "'read' is null"@,
            ),
            Some(source) => match format_of_tag(format) {
                None => {
                    &&& image is None
                    &&& *final(source) == *source
                    &&& final(errors)@ == old(errors)@.insert(thread, unknown_format_text(format))
                },
                Some(_) => {
                    &&& final(source).same_store(source)
                    &&& image matches Some(decoded) ==> well_sized(decoded) && final(errors)@
                        == old(errors)@
                    &&& image is None ==> reported(old(errors)@, final(errors)@, thread)
                },
            },
        },
{
    let Some(read) = read else {
        set_err(errors, thread, String::from_str("'read' is null"));
        return None;
    };
    let Some(format) = u8_to_format(format) else {
        set_err(errors, thread, unknown_format_message(format));
        return None;
    };
    or_report(decode_as(read, format), errors, thread)
}

/// Takes an image out of use.
pub fn libimage_destroy_image(image: DynamicImage) {
}

/// Whether `after` is the buffer `before` with the pixels of `image` as
/// 8-bit RGBA written over its start: four bytes for each pixel, row by row
/// from the top, and every byte behind them as it was.
pub open spec fn rgba8888_written(image: DynamicImage, before: Seq<u8>, after: Seq<u8>) -> bool {
    &&& rgba8_conversion_known(image)
    &&& after == rgba8_pixels(image).take(rgba8_len(image) as int) + before.skip(
        rgba8_len(image) as int,
    )
}

/// Copies the pixels of an image, converted to 8-bit RGBA, over the start of
/// `copy_dest`, which holds `width * height * 4` bytes at least. Exactly
/// that many bytes are written.
///
/// Returns `true`. Without an image nothing is written, the message
/// `'image' is null` is stored for `thread` and `false` is returned.
pub fn libimage_into_rgba8888(
    image: Option<&DynamicImage>,
    copy_dest: &mut [u8],
    errors: &mut ErrorTable,
    thread: u64,
) -> (done: bool)
    requires
        image matches Some(image) ==> old(copy_dest)@.len() >= rgba8_len(*image),
    ensures
        match image {
            None => {
                &&& !done
                &&& final(copy_dest)@ == old(copy_dest)@
                &&& final(errors)@ == old(errors)@.insert(thread, "'image' is null"@)
            },
            Some(image) => {
                &&& done
                &&& rgba8888_written(*image, old(copy_dest)@, final(copy_dest)@)
                &&& final(errors)@ == old(errors)@
            },
        },
{
    let Some(image) = image else {
        set_err(errors, thread, String::from_str("'image' is null"));
        return false;
    };
    assert(copy_dest@.len() <= usize::MAX) by {
        broadcast use vstd::slice::group_slice_axioms;

        assert(copy_dest@.len() == copy_dest.len());
    }
    let rgba = to_rgba8(image);
    let len = rgba8_size(image.width(), image.height());
    copy_bytes(copy_dest, 0, rgba.as_slice(), 0, len);
    assert(copy_dest@ =~= rgba@.take(len as int) + old(copy_dest)@.skip(len as int));
    true
}

/// The bytes that an image of this size takes as 8-bit RGBA.
fn rgba8_size(width: u32, height: u32) -> (len: usize)
    requires
        width * height * 4 <= usize::MAX,
    ensures
        len == width * height * 4,
{
    assert(width * height <= width * height * 4) by (nonlinear_arith)
        requires
            width >= 0,
            height >= 0,
    ;
    width as usize * height as usize * 4
}

/// Whether `image` is the image of the given size in 8-bit RGBA whose pixels
/// are the first `width * height * 4` bytes of `bytes`.
pub open spec fn made_of_rgba8888(
    image: DynamicImage,
    bytes: Seq<u8>,
    width: u32,
    height: u32,
) -> bool {
    &&& image_width(image) == width
    &&& image_height(image) == height
    &&& image_color(image) is Rgba8
    &&& pixel_bytes(image) == bytes.take(width * height * 4)
}

/// A new image of the given size in 8-bit RGBA with a copy of the first
/// `width * height * 4` bytes of `bytes` as its pixels, row by row from the
/// top. `bytes` holds that many at least.
pub fn libimage_new_rgba8888(bytes: &[u8], width: u32, height: u32) -> (image: DynamicImage)
    requires
        bytes@.len() >= width * height * 4,
    ensures
        made_of_rgba8888(image, bytes@, width, height),
        well_sized(image),
{
    assert(bytes@.len() <= usize::MAX) by {
        broadcast use vstd::slice::group_slice_axioms;

        assert(bytes@.len() == bytes.len());
    }
    let len = rgba8_size(width, height);
    let mut image = DynamicImage::new_rgba8(width, height);
    fill_rgba8(&mut image, slice_subrange(bytes, 0, len));
    image
}

/// Pixels that are made into an image and written out again as 8-bit RGBA
/// come back as they were: the first `width * height * 4` bytes of the
/// buffer that was written are those of the buffer the image was made of.
pub proof fn lemma_rgba8888_round_trip(
    bytes: Seq<u8>,
    width: u32,
    height: u32,
    image: DynamicImage,
    before: Seq<u8>,
    after: Seq<u8>,
)
    requires
        bytes.len() >= width * height * 4,
        before.len() >= width * height * 4,
        made_of_rgba8888(image, bytes, width, height),
        rgba8888_written(image, before, after),
    ensures
        after.take(width * height * 4) == bytes.take(width * height * 4),
        after.skip(width * height * 4) == before.skip(width * height * 4),
        after.len() == before.len(),
{
    let len = width * height * 4;
    assert(after.take(len) =~= bytes.take(len));
    assert(after.skip(len) =~= before.skip(len));
}

/// Writes an image to a sink in the format that the number `format` names.
///
/// Returns `true` where the codec has written the image. A number that
/// names no format is refused before the sink is touched, with the message
/// `Unknown image format: ` and the number. So is an image on which the
/// encoder would panic: one whose buffer is longer than its pixels where the
/// encoder compares the two, and one that lacks the pixels that the encoder
/// of OpenEXR or AVIF reaches for. Every other image is handed to the
/// encoder; where that fails, its message is stored for `thread`. Without an image the message is `'image' is null`, without
/// a sink `'write' is null`. Each of these returns `false`.
pub fn libimage_write<W: Write + Seek>(
    image: Option<&DynamicImage>,
    write: Option<&mut WriteWrap<W>>,
    format: u8,
    errors: &mut ErrorTable,
    thread: u64,
) -> (done: bool)
    ensures
        match (image, write) {
            (None, sink) => {
                &&& !done
                &&& final(errors)@ == old(errors)@.insert(thread, "'image' is null"@)
                &&& sink matches Some(sink) ==> *final(sink) == *sink
            },
            (Some(_), None) => !done && final(errors)@ == old(errors)@.insert(
                thread,
                "'write' is null"@,
            ),
            (Some(image), Some(sink)) => match format_of_tag(format) {
                None => {
                    &&& !done
                    &&& *final(sink) == *sink
                    &&& final(errors)@ == old(errors)@.insert(thread, unknown_format_text(format))
                },
                Some(named) => if encodable(*image, named) {
                    &&& final(sink).same_kind(sink)
                    &&& *sink is Buf ==> final(sink).contents().len() == sink.contents().len()
                    &&& *sink is Expanding ==> final(sink).contents().len() >= sink.contents().len()
                    &&& done ==> final(errors)@ == old(errors)@
                    &&& !done ==> reported(old(errors)@, final(errors)@, thread)
                } else {
                    &&& !done
                    &&& *final(sink) == *sink
                    &&& final(errors)@ == old(errors)@.insert(
                        thread,
                        refusal_text(*image, named),
                    )
                },
            },
        },
{
    let Some(image) = image else {
        set_err(errors, thread, String::from_str("'image' is null"));
        return false;
    };
    let Some(write) = write else {
        set_err(errors, thread, String::from_str("'write' is null"));
        return false;
    };
    let Some(format) = u8_to_format(format) else {
        set_err(errors, thread, unknown_format_message(format));
        return false;
    };
    let color = image.color();
    if checks_length(format, color) && !has_exact_buffer(image) {
        set_err(errors, thread, String::from_str(BAD_BUFFER));
        return false;
    }
    if misses_pixels(format, color, image.width(), image.height()) {
        set_err(errors, thread, String::from_str(NO_PIXELS));
        return false;
    }
    or_report(encode_as(image, write, format), errors, thread).is_some()
}

/// Whether the encoder of `format` compares the length of the buffer of an
/// image of the layout `color` with the image's size.
fn checks_length(format: ImageFormat, color: ColorType) -> (checked: bool)
    ensures
        checked == length_checked(format, color),
{
    let plain = matches!(color, ColorType::Rgb8 | ColorType::Rgba8);
    let gray = matches!(color, ColorType::L8 | ColorType::La8);
    match format {
        ImageFormat::Png
        | ImageFormat::Pnm
        | ImageFormat::Tiff
        | ImageFormat::Ico
        | ImageFormat::OpenExr
        | ImageFormat::Avif => true,
        ImageFormat::Jpeg => matches!(color, ColorType::L8 | ColorType::Rgb8),
        ImageFormat::Gif | ImageFormat::Qoi => plain,
        ImageFormat::WebP | ImageFormat::Tga | ImageFormat::Bmp => plain || gray,
        ImageFormat::Farbfeld => matches!(color, ColorType::Rgba16),
        _ => false,
    }
}

/// Whether the encoder of `format` panics on an image of this layout and
/// size for want of pixels.
fn misses_pixels(format: ImageFormat, color: ColorType, width: u32, height: u32) -> (missed: bool)
    ensures
        missed == pixels_missed(format, color, width, height),
{
    match format {
        ImageFormat::OpenExr => matches!(color, ColorType::Rgb32F | ColorType::Rgba32F) && ((width
            == 0) != (height == 0)),
        ImageFormat::Avif => width == 0 && matches!(
            color,
            ColorType::L8 | ColorType::La8 | ColorType::L16 | ColorType::La16 | ColorType::Rgb16
                | ColorType::Rgba16
        ),
        _ => false,
    }
}

/// Whether the buffer of an image holds its pixels and nothing behind them.
fn has_exact_buffer(image: &DynamicImage) -> (exact: bool)
    ensures
        exact == well_sized(*image),
{
    let (width, height) = (image.width(), image.height());
    assert(width * height <= 0x1_0000_0000_0000_0000) by (nonlinear_arith)
        requires
            0 <= width < 0x1_0000_0000,
            0 <= height < 0x1_0000_0000,
    ;
    let pixels = width as u128 * height as u128;
    let size = image.color().bytes_per_pixel() as u128;
    assert(pixels * size <= 0x1_0000_0000_0000_0000 * 256) by (nonlinear_arith)
        requires
            0 <= pixels <= 0x1_0000_0000_0000_0000,
            0 <= size < 256,
    ;
    assert(image_width(*image) * image_height(*image) * pixel_size(image_color(*image)) == pixels
        * size) by (nonlinear_arith)
        requires
            pixels == image_width(*image) * image_height(*image),
            size == pixel_size(image_color(*image)),
    ;
    image.as_bytes().len() as u128 == pixels * size
}

} // verus!
