//! The numbers by which callers name an image format, and the message for a
//! number that names none.

use image::ImageFormat;
use vstd::prelude::*;
use vstd::string::StringExecFns;

verus! {

#[verifier::external_type_specification]
pub struct ExImageFormat(ImageFormat);

pub const IMAGEFORMAT_PNG: u8 = 1;

pub const IMAGEFORMAT_JPEG: u8 = 2;

pub const IMAGEFORMAT_GIF: u8 = 3;

pub const IMAGEFORMAT_WEBP: u8 = 4;

pub const IMAGEFORMAT_PNM: u8 = 5;

pub const IMAGEFORMAT_TIFF: u8 = 6;

pub const IMAGEFORMAT_TGA: u8 = 7;

pub const IMAGEFORMAT_DDS: u8 = 8;

pub const IMAGEFORMAT_BMP: u8 = 9;

pub const IMAGEFORMAT_ICO: u8 = 10;

pub const IMAGEFORMAT_HDR: u8 = 11;

pub const IMAGEFORMAT_OPENEXR: u8 = 12;

pub const IMAGEFORMAT_FARBFELD: u8 = 13;

pub const IMAGEFORMAT_AVIF: u8 = 14;

pub const IMAGEFORMAT_QOI: u8 = 15;

/// The formats in the order of their numbers: the first has number 1.
pub open spec fn numbered_formats() -> Seq<ImageFormat> {
    seq![
        ImageFormat::Png,
        ImageFormat::Jpeg,
        ImageFormat::Gif,
        ImageFormat::WebP,
        ImageFormat::Pnm,
        ImageFormat::Tiff,
        ImageFormat::Tga,
        ImageFormat::Dds,
        ImageFormat::Bmp,
        ImageFormat::Ico,
        ImageFormat::Hdr,
        ImageFormat::OpenExr,
        ImageFormat::Farbfeld,
        ImageFormat::Avif,
        ImageFormat::Qoi,
    ]
}

/// The format that `tag` names, if it names one.
pub open spec fn format_of_tag(tag: u8) -> Option<ImageFormat> {
    if 1 <= tag <= numbered_formats().len() {
        Some(numbered_formats()[tag - 1])
    } else {
        None
    }
}

/// The format that the number `format` names: `None` for 0 and for every
/// number above 15.
pub fn u8_to_format(format: u8) -> (named: Option<ImageFormat>)
    ensures
        named == format_of_tag(format),
{
    match format {
        IMAGEFORMAT_PNG => Some(ImageFormat::Png),
        IMAGEFORMAT_JPEG => Some(ImageFormat::Jpeg),
        IMAGEFORMAT_GIF => Some(ImageFormat::Gif),
        IMAGEFORMAT_WEBP => Some(ImageFormat::WebP),
        IMAGEFORMAT_PNM => Some(ImageFormat::Pnm),
        IMAGEFORMAT_TIFF => Some(ImageFormat::Tiff),
        IMAGEFORMAT_TGA => Some(ImageFormat::Tga),
        IMAGEFORMAT_DDS => Some(ImageFormat::Dds),
        IMAGEFORMAT_BMP => Some(ImageFormat::Bmp),
        IMAGEFORMAT_ICO => Some(ImageFormat::Ico),
        IMAGEFORMAT_HDR => Some(ImageFormat::Hdr),
        IMAGEFORMAT_OPENEXR => Some(ImageFormat::OpenExr),
        IMAGEFORMAT_FARBFELD => Some(ImageFormat::Farbfeld),
        IMAGEFORMAT_AVIF => Some(ImageFormat::Avif),
        IMAGEFORMAT_QOI => Some(ImageFormat::Qoi),
        _ => None,
    }
}

/// No two numbers name the same format.
pub proof fn lemma_format_tags_are_distinct(a: u8, b: u8)
    requires
        a != b,
        format_of_tag(a) is Some,
    ensures
        format_of_tag(a) != format_of_tag(b),
{
}

/// The ten decimal digits.
pub open spec fn digits() -> Seq<char> {
    seq!['0', '1', '2', '3', '4', '5', '6', '7', '8', '9']
}

/// `n` written in decimal, without leading zeros.
pub open spec fn decimal(n: nat) -> Seq<char>
    decreases n,
{
    if n < 10 {
        seq![digits()[n as int]]
    } else {
        decimal(n / 10).push(digits()[(n % 10) as int])
    }
}

/// What is reported for a number that names no format.
pub open spec fn unknown_format_text(format: u8) -> Seq<char> {
    "Unknown image format: "@ + decimal(format as nat)
}

fn digit(d: u8) -> (text: &'static str)
    requires
        d < 10,
    ensures
        text@ == seq![digits()[d as int]],
{
    proof {
        reveal_strlit("0");
        reveal_strlit("1");
        reveal_strlit("2");
        reveal_strlit("3");
        reveal_strlit("4");
        reveal_strlit("5");
        reveal_strlit("6");
        reveal_strlit("7");
        reveal_strlit("8");
        reveal_strlit("9");
    }
    let text = match d {
        0 => "0",
        1 => "1",
        2 => "2",
        3 => "3",
        4 => "4",
        5 => "5",
        6 => "6",
        7 => "7",
        8 => "8",
        _ => "9",
    };
    assert(text@ =~= seq![digits()[d as int]]);
    text
}

/// The message for a number that names no format: the words
/// `Unknown image format: ` and the number in decimal.
pub fn unknown_format_message(format: u8) -> (message: String)
    ensures
        message@ == unknown_format_text(format),
{
    let mut message = String::from_str("Unknown image format: ");
    if format >= 100 {
        message.append(digit(format / 100));
    }
    if format >= 10 {
        message.append(digit((format / 10) % 10));
    }
    message.append(digit(format % 10));
    proof {
        reveal_with_fuel(decimal, 3);
        assert(message@ =~= unknown_format_text(format));
    }
    message
}

} // verus!
