use image::ColorType;
use image::DynamicImage;
use image::RgbImage;
use libimage::libimage_as_bytes;
use libimage::libimage_destroy_image;
use libimage::libimage_fd_r;
use libimage::libimage_fd_w;
use libimage::libimage_get_err;
use libimage::libimage_into_rgba8888;
use libimage::libimage_metrics;
use libimage::libimage_new_rgba8888;
use libimage::libimage_open_buf_r;
use libimage::libimage_open_buf_w;
use libimage::libimage_open_expanding_w;
use libimage::libimage_read;
use libimage::libimage_read_guess;
use libimage::libimage_w_into_r;
use libimage::libimage_write;
use libimage::ErrorTable;
use libimage::ImageMetrics;
use libimage::ReadWrap;
use libimage::WriteWrap;
use std::io::Cursor;
use std::io::Seek;
use std::io::SeekFrom;

type Mem = Cursor<Vec<u8>>;

fn leak(bytes: Vec<u8>) -> &'static mut [u8] {
    Box::leak(bytes.into_boxed_slice())
}

fn message(errors: &ErrorTable, thread: u64) -> Option<String> {
    libimage_get_err(errors, thread).cloned()
}

fn pixels(width: u32, height: u32) -> Vec<u8> {
    (0..width * height * 4).map(|i| (i * 31 + 5) as u8).collect()
}

fn metrics(image: &DynamicImage) -> ImageMetrics {
    let mut errors = ErrorTable::new();
    let found = libimage_metrics(Some(image), &mut errors, 1).unwrap();
    assert_eq!(message(&errors, 1), None);
    found
}

fn encoded(image: &DynamicImage, format: u8) -> ReadWrap<Mem> {
    let mut errors = ErrorTable::new();
    let mut sink: WriteWrap<Mem> = libimage_open_expanding_w();
    assert!(libimage_write(Some(image), Some(&mut sink), format, &mut errors, 1));
    assert_eq!(message(&errors, 1), None);
    libimage_w_into_r(Some(sink), &mut errors, 1).unwrap()
}

fn expect(color: ColorType, code: u8, channels: u8, size: u8, alpha: bool, colored: bool) {
    let image = DynamicImage::new(3, 2, color);
    assert_eq!(
        metrics(&image),
        ImageMetrics {
            bufsize: 6 * size as usize,
            width: 3,
            height: 2,
            color: code,
            channels,
            bytes_per_pixel: size,
            has_alpha: alpha,
            has_color: colored,
        }
    );
}

#[test]
fn every_layout_has_its_record() {
    expect(ColorType::L8, libimage::COLORTYPE_L8, 1, 1, false, false);
    expect(ColorType::La8, libimage::COLORTYPE_LA8, 2, 2, true, false);
    expect(ColorType::Rgb8, libimage::COLORTYPE_RGB8, 3, 3, false, true);
    expect(ColorType::Rgba8, libimage::COLORTYPE_RGBA8, 4, 4, true, true);
    expect(ColorType::L16, libimage::COLORTYPE_L16, 1, 2, false, false);
    expect(ColorType::La16, libimage::COLORTYPE_LA16, 2, 4, true, false);
    expect(ColorType::Rgb16, libimage::COLORTYPE_RGB16, 3, 6, false, true);
    expect(ColorType::Rgba16, libimage::COLORTYPE_RGBA16, 4, 8, true, true);
    expect(ColorType::Rgb32F, libimage::COLORTYPE_RGB32F, 3, 12, false, true);
    expect(ColorType::Rgba32F, libimage::COLORTYPE_RGBA32F, 4, 16, true, true);
}

#[test]
fn the_layout_numbers_are_fixed() {
    assert_eq!(
        [
            libimage::COLORTYPE_L8,
            libimage::COLORTYPE_LA8,
            libimage::COLORTYPE_RGB8,
            libimage::COLORTYPE_RGBA8,
            libimage::COLORTYPE_L16,
            libimage::COLORTYPE_LA16,
            libimage::COLORTYPE_RGB16,
            libimage::COLORTYPE_RGBA16,
            libimage::COLORTYPE_RGB32F,
            libimage::COLORTYPE_RGBA32F,
        ],
        [1, 2, 3, 4, 5, 6, 7, 8, 9, 10]
    );
}

#[test]
fn an_rgb_image_has_colour_and_no_alpha() {
    let found = metrics(&DynamicImage::new_rgb8(5, 4));
    assert!(found.has_color);
    assert!(!found.has_alpha);
    assert_eq!(found.bufsize, 60);
}

#[test]
fn the_record_counts_the_raw_bytes() {
    let mut errors = ErrorTable::new();
    for color in [ColorType::L8, ColorType::Rgb16, ColorType::Rgba32F, ColorType::La8] {
        for (width, height) in [(0, 0), (1, 1), (7, 3), (0, 5)] {
            let image = DynamicImage::new(width, height, color);
            let bytes = libimage_as_bytes(Some(&image), &mut errors, 1).unwrap();
            assert_eq!(metrics(&image).bufsize, bytes.len());
        }
    }
    assert_eq!(message(&errors, 1), None);
}

#[test]
fn the_record_counts_a_buffer_that_is_longer_than_the_pixels() {
    let mut errors = ErrorTable::new();
    let image = DynamicImage::ImageRgb8(RgbImage::from_raw(1, 1, vec![1, 2, 3, 4, 5]).unwrap());
    let bytes = libimage_as_bytes(Some(&image), &mut errors, 1).unwrap();
    assert_eq!(bytes, &[1, 2, 3, 4, 5]);
    assert_eq!(metrics(&image).bufsize, 5);
}

#[test]
fn metrics_of_no_image_is_the_sentinel() {
    let mut errors = ErrorTable::new();
    assert_eq!(libimage_metrics(None, &mut errors, 8), None);
    assert_eq!(message(&errors, 8).as_deref(), Some("'image' is null"));
    assert_eq!(message(&errors, 9), None);
}

#[test]
fn raw_bytes_of_no_image_is_the_sentinel() {
    let mut errors = ErrorTable::new();
    assert_eq!(libimage_as_bytes(None, &mut errors, 8), None);
    assert_eq!(message(&errors, 8).as_deref(), Some("'image' is null"));
}

#[test]
fn raw_bytes_are_the_pixels() {
    let mut errors = ErrorTable::new();
    let data = pixels(2, 2);
    let image = libimage_new_rgba8888(&data, 2, 2);
    assert_eq!(libimage_as_bytes(Some(&image), &mut errors, 1), Some(&data[..]));
}

#[test]
fn an_image_made_of_pixels_is_rgba() {
    let data = pixels(4, 3);
    let image = libimage_new_rgba8888(&data, 4, 3);
    assert_eq!(
        metrics(&image),
        ImageMetrics {
            bufsize: 48,
            width: 4,
            height: 3,
            color: libimage::COLORTYPE_RGBA8,
            channels: 4,
            bytes_per_pixel: 4,
            has_alpha: true,
            has_color: true,
        }
    );
    assert_eq!(image.as_rgba8().unwrap().get_pixel(1, 2).0, [data[36], data[37], data[38], data[39]]);
    libimage_destroy_image(image);
}

#[test]
fn an_image_takes_the_first_pixels_of_a_longer_buffer() {
    let mut data = pixels(2, 2);
    data.extend_from_slice(&[0xAA; 7]);
    let image = libimage_new_rgba8888(&data, 2, 2);
    assert_eq!(image.as_bytes(), &data[..16]);
}

#[test]
fn pixels_come_back_as_they_went_in() {
    let mut errors = ErrorTable::new();
    for (width, height) in [(1, 1), (2, 3), (16, 9), (0, 0), (0, 4), (5, 0)] {
        let data = pixels(width, height);
        let image = libimage_new_rgba8888(&data, width, height);
        let mut back = vec![0xEE; data.len()];
        assert!(libimage_into_rgba8888(Some(&image), &mut back, &mut errors, 1));
        assert_eq!(back, data);
    }
    assert_eq!(message(&errors, 1), None);
}

#[test]
fn exactly_four_bytes_a_pixel_are_written() {
    let mut errors = ErrorTable::new();
    let image = DynamicImage::new_luma8(3, 2);
    let mut dest = vec![0x55; 30];
    assert!(libimage_into_rgba8888(Some(&image), &mut dest, &mut errors, 1));
    for pixel in dest[..24].chunks(4) {
        assert_eq!(pixel, &[0, 0, 0, 255]);
    }
    assert_eq!(&dest[24..], &[0x55; 6]);
}

#[test]
fn an_rgb_pixel_gains_full_alpha() {
    let mut errors = ErrorTable::new();
    let image = DynamicImage::ImageRgb8(RgbImage::from_raw(2, 1, vec![10, 20, 30, 40, 50, 60]).unwrap());
    let mut dest = vec![0; 8];
    assert!(libimage_into_rgba8888(Some(&image), &mut dest, &mut errors, 1));
    assert_eq!(dest, vec![10, 20, 30, 255, 40, 50, 60, 255]);
}

#[test]
fn an_rgba_image_with_a_longer_buffer_gives_its_pixels_only() {
    let mut errors = ErrorTable::new();
    let buffer = image::RgbaImage::from_raw(1, 1, vec![1, 2, 3, 4, 5, 6]).unwrap();
    let image = DynamicImage::ImageRgba8(buffer);
    let mut dest = vec![9; 6];
    assert!(libimage_into_rgba8888(Some(&image), &mut dest, &mut errors, 1));
    assert_eq!(dest, vec![1, 2, 3, 4, 9, 9]);
}

#[test]
fn converting_no_image_writes_nothing() {
    let mut errors = ErrorTable::new();
    let mut dest = vec![3; 4];
    assert!(!libimage_into_rgba8888(None, &mut dest, &mut errors, 5));
    assert_eq!(dest, vec![3; 4]);
    assert_eq!(message(&errors, 5).as_deref(), Some("'image' is null"));
}

#[test]
fn png_round_trip_keeps_the_record_and_the_pixels() {
    let mut errors = ErrorTable::new();
    let data = pixels(6, 5);
    let first = libimage_new_rgba8888(&data, 6, 5);
    let mut source = encoded(&first, libimage::IMAGEFORMAT_PNG);
    let second =
        libimage_read(Some(&mut source), libimage::IMAGEFORMAT_PNG, &mut errors, 1).unwrap();
    assert_eq!(metrics(&second), metrics(&first));
    assert_eq!(second.as_bytes(), &data[..]);
    let mut again = encoded(&second, libimage::IMAGEFORMAT_PNG);
    let third =
        libimage_read(Some(&mut again), libimage::IMAGEFORMAT_PNG, &mut errors, 1).unwrap();
    assert_eq!(metrics(&third), metrics(&second));
    assert_eq!(message(&errors, 1), None);
}

#[test]
fn qoi_round_trip_keeps_the_record_and_the_pixels() {
    let mut errors = ErrorTable::new();
    let data = pixels(3, 7);
    let first = libimage_new_rgba8888(&data, 3, 7);
    let mut source = encoded(&first, libimage::IMAGEFORMAT_QOI);
    let second =
        libimage_read(Some(&mut source), libimage::IMAGEFORMAT_QOI, &mut errors, 1).unwrap();
    assert_eq!(metrics(&second), metrics(&first));
    assert_eq!(second.as_bytes(), &data[..]);
}

#[test]
fn lossless_formats_keep_an_rgb_image() {
    let mut errors = ErrorTable::new();
    let raw: Vec<u8> = (0..4 * 4 * 3).map(|i| (i * 5) as u8).collect();
    let first = DynamicImage::ImageRgb8(RgbImage::from_raw(4, 4, raw.clone()).unwrap());
    for format in [
        libimage::IMAGEFORMAT_PNG,
        libimage::IMAGEFORMAT_BMP,
        libimage::IMAGEFORMAT_TIFF,
        libimage::IMAGEFORMAT_QOI,
        libimage::IMAGEFORMAT_PNM,
        libimage::IMAGEFORMAT_TGA,
    ] {
        let mut source = encoded(&first, format);
        let second = libimage_read(Some(&mut source), format, &mut errors, 1).unwrap();
        assert_eq!(metrics(&second), metrics(&first));
        assert_eq!(second.as_bytes(), &raw[..]);
    }
    assert_eq!(message(&errors, 1), None);
}

#[test]
fn the_format_is_guessed_from_the_first_bytes() {
    let mut errors = ErrorTable::new();
    let data = pixels(2, 2);
    let first = libimage_new_rgba8888(&data, 2, 2);
    for format in [libimage::IMAGEFORMAT_PNG, libimage::IMAGEFORMAT_QOI, libimage::IMAGEFORMAT_BMP]
    {
        let mut source = encoded(&first, format);
        let second = libimage_read_guess(Some(&mut source), &mut errors, 1).unwrap();
        assert_eq!(metrics(&second), metrics(&first));
        assert_eq!(second.as_bytes(), &data[..]);
    }
    assert_eq!(message(&errors, 1), None);
}

#[test]
fn an_image_is_decoded_from_a_fixed_range_and_from_a_file() {
    let mut errors = ErrorTable::new();
    let data = pixels(2, 2);
    let first = libimage_new_rgba8888(&data, 2, 2);
    let mut png = Vec::new();
    first.write_to(&mut Cursor::new(&mut png), image::ImageFormat::Png).unwrap();
    let mut range: ReadWrap<Mem> = libimage_open_buf_r(leak(png.clone()));
    let second = libimage_read(Some(&mut range), 1, &mut errors, 1).unwrap();
    assert_eq!(second.as_bytes(), &data[..]);
    let mut file: ReadWrap<Mem> = libimage_fd_r(Cursor::new(png));
    let third = libimage_read_guess(Some(&mut file), &mut errors, 1).unwrap();
    assert_eq!(third.as_bytes(), &data[..]);
    assert_eq!(message(&errors, 1), None);
}

#[test]
fn an_image_is_written_to_a_fixed_range_and_to_a_file() {
    let mut errors = ErrorTable::new();
    let first = libimage_new_rgba8888(&pixels(2, 2), 2, 2);
    let mut expected = Vec::new();
    first.write_to(&mut Cursor::new(&mut expected), image::ImageFormat::Qoi).unwrap();
    let mut file: WriteWrap<Mem> = libimage_fd_w(Cursor::new(Vec::new()));
    assert!(libimage_write(Some(&first), Some(&mut file), 15, &mut errors, 1));
    match file {
        WriteWrap::File(inner) => assert_eq!(inner.into_inner(), expected),
        _ => panic!("a file sink stays a file sink"),
    }
    let mut range: WriteWrap<Mem> = libimage_open_buf_w(leak(vec![0; expected.len() + 3]));
    assert!(libimage_write(Some(&first), Some(&mut range), 15, &mut errors, 1));
    assert_eq!(range.seek(SeekFrom::Current(0)).unwrap(), expected.len() as u64);
    assert_eq!(message(&errors, 1), None);
}

#[test]
fn an_unknown_format_is_refused_before_the_source_is_read() {
    let mut errors = ErrorTable::new();
    let mut source: ReadWrap<Mem> = libimage_open_buf_r(b"not an image");
    assert!(libimage_read(Some(&mut source), 99, &mut errors, 1).is_none());
    assert_eq!(message(&errors, 1).as_deref(), Some("Unknown image format: 99"));
    assert_eq!(source.seek(SeekFrom::Current(0)).unwrap(), 0);
    assert!(libimage_read(Some(&mut source), 0, &mut errors, 2).is_none());
    assert_eq!(message(&errors, 2).as_deref(), Some("Unknown image format: 0"));
    assert!(libimage_read(Some(&mut source), 16, &mut errors, 3).is_none());
    assert_eq!(message(&errors, 3).as_deref(), Some("Unknown image format: 16"));
}

#[test]
fn an_unknown_format_is_refused_before_the_sink_is_written() {
    let mut errors = ErrorTable::new();
    let image = DynamicImage::new_rgb8(1, 1);
    let mut sink: WriteWrap<Mem> = libimage_open_expanding_w();
    assert!(!libimage_write(Some(&image), Some(&mut sink), 200, &mut errors, 1));
    assert_eq!(message(&errors, 1).as_deref(), Some("Unknown image format: 200"));
    assert_eq!(sink.seek(SeekFrom::End(0)).unwrap(), 0);
}

#[test]
fn reading_without_a_source_reports_null() {
    let mut errors = ErrorTable::new();
    assert!(libimage_read::<Mem>(None, 1, &mut errors, 1).is_none());
    assert_eq!(message(&errors, 1).as_deref(), Some("'read' is null"));
    assert!(libimage_read::<Mem>(None, 99, &mut errors, 2).is_none());
    assert_eq!(message(&errors, 2).as_deref(), Some("'read' is null"));
    assert!(libimage_read_guess::<Mem>(None, &mut errors, 3).is_none());
    assert_eq!(message(&errors, 3).as_deref(), Some("'read' is null"));
}

#[test]
fn writing_checks_the_image_then_the_sink_then_the_format() {
    let mut errors = ErrorTable::new();
    let image = DynamicImage::new_rgb8(1, 1);
    let mut sink: WriteWrap<Mem> = libimage_open_expanding_w();
    assert!(!libimage_write::<Mem>(None, None, 99, &mut errors, 1));
    assert_eq!(message(&errors, 1).as_deref(), Some("'image' is null"));
    assert!(!libimage_write(None, Some(&mut sink), 1, &mut errors, 2));
    assert_eq!(message(&errors, 2).as_deref(), Some("'image' is null"));
    assert!(!libimage_write::<Mem>(Some(&image), None, 99, &mut errors, 3));
    assert_eq!(message(&errors, 3).as_deref(), Some("'write' is null"));
}

#[test]
fn bytes_that_are_no_image_fail_with_the_codecs_message() {
    let mut errors = ErrorTable::new();
    let mut source: ReadWrap<Mem> = libimage_open_buf_r(b"certainly not a png file");
    assert!(libimage_read(Some(&mut source), 1, &mut errors, 4).is_none());
    let told = message(&errors, 4).unwrap();
    assert!(!told.is_empty());
    assert_eq!(message(&errors, 5), None);
    let mut source: ReadWrap<Mem> = libimage_open_buf_r(b"certainly not an image");
    assert!(libimage_read_guess(Some(&mut source), &mut errors, 5).is_none());
    assert!(!message(&errors, 5).unwrap().is_empty());
}

#[test]
fn a_truncated_image_fails() {
    let mut errors = ErrorTable::new();
    let first = libimage_new_rgba8888(&pixels(8, 8), 8, 8);
    let mut png = Vec::new();
    first.write_to(&mut Cursor::new(&mut png), image::ImageFormat::Png).unwrap();
    png.truncate(png.len() / 2);
    let mut source: ReadWrap<Mem> = libimage_open_buf_r(leak(png));
    assert!(libimage_read(Some(&mut source), 1, &mut errors, 1).is_none());
    assert!(message(&errors, 1).is_some());
}

#[test]
fn a_fixed_range_that_is_too_small_fails_the_write() {
    let mut errors = ErrorTable::new();
    let image = libimage_new_rgba8888(&pixels(8, 8), 8, 8);
    let mut sink: WriteWrap<Mem> = libimage_open_buf_w(leak(vec![0; 10]));
    assert!(!libimage_write(Some(&image), Some(&mut sink), 15, &mut errors, 1));
    assert!(message(&errors, 1).is_some());
    assert!(matches!(sink, WriteWrap::Buf(_)));
}

#[test]
fn a_failed_decode_in_one_thread_is_not_seen_by_another() {
    let mut errors = ErrorTable::new();
    let (a, b) = (1u64, 2u64);
    let first = libimage_new_rgba8888(&pixels(2, 2), 2, 2);
    let mut good = encoded(&first, libimage::IMAGEFORMAT_PNG);
    let mut bad: ReadWrap<Mem> = libimage_open_buf_r(b"garbage");
    assert_eq!(message(&errors, b), None);
    assert!(libimage_read(Some(&mut bad), 1, &mut errors, a).is_none());
    assert_eq!(message(&errors, b), None);
    assert!(libimage_read(Some(&mut good), 1, &mut errors, b).is_some());
    assert_eq!(message(&errors, b), None);
    assert!(message(&errors, a).is_some());
}

#[test]
fn every_format_writes_or_reports() {
    let layouts = [
        ColorType::L8,
        ColorType::La8,
        ColorType::Rgb8,
        ColorType::Rgba8,
        ColorType::L16,
        ColorType::La16,
        ColorType::Rgb16,
        ColorType::Rgba16,
        ColorType::Rgb32F,
        ColorType::Rgba32F,
    ];
    for format in 1..=15u8 {
        for color in layouts {
            for (width, height) in [(0, 0), (1, 1), (3, 2), (0, 2), (2, 0), (300, 1), (1, 300)] {
                let mut errors = ErrorTable::new();
                let image = DynamicImage::new(width, height, color);
                let mut sink: WriteWrap<Mem> = libimage_open_expanding_w();
                let done = libimage_write(Some(&image), Some(&mut sink), format, &mut errors, 1);
                assert_eq!(done, message(&errors, 1).is_none());
                assert!(matches!(sink, WriteWrap::Expanding(_)));
            }
        }
    }
}

#[test]
fn every_format_reads_or_reports() {
    let inputs: [&'static [u8]; 4] = [b"", b"\x89PNG\r\n\x1a\n", b"qoif\0\0\0\0\0\0\0\0\x04\0", b"P6 1 1 255 abc"];
    for format in 1..=15u8 {
        for input in inputs {
            let mut errors = ErrorTable::new();
            let mut source: ReadWrap<Mem> = libimage_open_buf_r(input);
            let image = libimage_read(Some(&mut source), format, &mut errors, 1);
            assert_eq!(image.is_some(), message(&errors, 1).is_none());
            assert!(matches!(source, ReadWrap::Buf(_)));
        }
    }
}

fn long(color: ColorType, width: u32, height: u32, extra: usize) -> DynamicImage {
    let pixels = (width * height) as usize;
    match color {
        ColorType::L8 => DynamicImage::ImageLuma8(
            image::ImageBuffer::from_raw(width, height, vec![0u8; pixels + extra]).unwrap(),
        ),
        ColorType::La8 => DynamicImage::ImageLumaA8(
            image::ImageBuffer::from_raw(width, height, vec![0u8; pixels * 2 + extra]).unwrap(),
        ),
        ColorType::Rgb8 => DynamicImage::ImageRgb8(
            image::ImageBuffer::from_raw(width, height, vec![0u8; pixels * 3 + extra]).unwrap(),
        ),
        ColorType::Rgba8 => DynamicImage::ImageRgba8(
            image::ImageBuffer::from_raw(width, height, vec![0u8; pixels * 4 + extra]).unwrap(),
        ),
        ColorType::L16 => DynamicImage::ImageLuma16(
            image::ImageBuffer::from_raw(width, height, vec![0u16; pixels + extra]).unwrap(),
        ),
        ColorType::La16 => DynamicImage::ImageLumaA16(
            image::ImageBuffer::from_raw(width, height, vec![0u16; pixels * 2 + extra]).unwrap(),
        ),
        ColorType::Rgb16 => DynamicImage::ImageRgb16(
            image::ImageBuffer::from_raw(width, height, vec![0u16; pixels * 3 + extra]).unwrap(),
        ),
        ColorType::Rgba16 => DynamicImage::ImageRgba16(
            image::ImageBuffer::from_raw(width, height, vec![0u16; pixels * 4 + extra]).unwrap(),
        ),
        ColorType::Rgb32F => DynamicImage::ImageRgb32F(
            image::ImageBuffer::from_raw(width, height, vec![0f32; pixels * 3 + extra]).unwrap(),
        ),
        _ => DynamicImage::ImageRgba32F(
            image::ImageBuffer::from_raw(width, height, vec![0f32; pixels * 4 + extra]).unwrap(),
        ),
    }
}

const LAYOUTS: [ColorType; 10] = [
    ColorType::L8,
    ColorType::La8,
    ColorType::Rgb8,
    ColorType::Rgba8,
    ColorType::L16,
    ColorType::La16,
    ColorType::Rgb16,
    ColorType::Rgba16,
    ColorType::Rgb32F,
    ColorType::Rgba32F,
];

fn compares_lengths(format: u8, color: ColorType) -> bool {
    let plain = matches!(color, ColorType::Rgb8 | ColorType::Rgba8);
    let gray = matches!(color, ColorType::L8 | ColorType::La8);
    match format {
        1 | 5 | 6 | 10 | 12 | 14 => true,
        2 => matches!(color, ColorType::L8 | ColorType::Rgb8),
        3 | 15 => plain,
        4 | 7 | 9 => plain || gray,
        13 => matches!(color, ColorType::Rgba16),
        _ => false,
    }
}

fn written_message(image: &DynamicImage, format: u8) -> Option<String> {
    let mut errors = ErrorTable::new();
    let mut sink: WriteWrap<Mem> = libimage_open_expanding_w();
    let done = libimage_write(Some(image), Some(&mut sink), format, &mut errors, 1);
    assert_eq!(done, message(&errors, 1).is_none());
    message(&errors, 1)
}

#[test]
fn a_longer_buffer_is_refused_where_the_encoder_compares_lengths() {
    for format in 1..=15u8 {
        for color in LAYOUTS {
            for (width, height, extra) in [(1, 1, 1), (3, 2, 5), (0, 0, 1), (0, 2, 1), (2, 0, 1)] {
                let told = written_message(&long(color, width, height, extra), format);
                let refused = told.as_deref() == Some("Image buffer does not match image size");
                assert_eq!(refused, compares_lengths(format, color));
            }
        }
    }
}

#[test]
fn a_longer_buffer_reaches_the_encoder_that_converts_it() {
    let image = long(ColorType::Rgba8, 2, 2, 3);
    assert_eq!(written_message(&image, libimage::IMAGEFORMAT_JPEG), None);
    let image = long(ColorType::Rgb16, 2, 2, 1);
    assert_eq!(written_message(&image, libimage::IMAGEFORMAT_BMP), None);
    let image = long(ColorType::Rgb8, 2, 2, 1);
    let told = written_message(&image, libimage::IMAGEFORMAT_FARBFELD).unwrap();
    assert_ne!(told, "Image buffer does not match image size");
    assert_ne!(told, "Image has no pixels");
}

#[test]
fn an_image_that_lacks_pixels_is_refused_where_the_encoder_would_panic() {
    for format in 1..=15u8 {
        for color in LAYOUTS {
            for (width, height) in [(0, 0), (0, 2), (2, 0), (1, 1)] {
                let told = written_message(&long(color, width, height, 0), format);
                let float = matches!(color, ColorType::Rgb32F | ColorType::Rgba32F);
                let plain = matches!(color, ColorType::Rgb8 | ColorType::Rgba8);
                let expected = match format {
                    12 => float && (width == 0) != (height == 0),
                    14 => width == 0 && !float && !plain,
                    _ => false,
                };
                assert_eq!(told.as_deref() == Some("Image has no pixels"), expected);
            }
        }
    }
}

#[test]
fn an_empty_image_is_answered_by_the_encoder_of_avif() {
    let image = libimage_new_rgba8888(&[], 0, 0);
    let told = written_message(&image, libimage::IMAGEFORMAT_AVIF).unwrap();
    assert_ne!(told, "Image has no pixels");
    assert!(!told.is_empty());
    let image = DynamicImage::new(0, 0, ColorType::Rgba32F);
    let told = written_message(&image, libimage::IMAGEFORMAT_AVIF).unwrap();
    assert_ne!(told, "Image has no pixels");
    let image = DynamicImage::new(0, 0, ColorType::Rgba32F);
    let told = written_message(&image, libimage::IMAGEFORMAT_OPENEXR);
    assert_ne!(told.as_deref(), Some("Image has no pixels"));
}

#[test]
fn every_layout_and_size_converts_to_rgba() {
    let layouts = [
        ColorType::L8,
        ColorType::La8,
        ColorType::Rgb8,
        ColorType::Rgba8,
        ColorType::L16,
        ColorType::La16,
        ColorType::Rgb16,
        ColorType::Rgba16,
        ColorType::Rgb32F,
        ColorType::Rgba32F,
    ];
    let mut errors = ErrorTable::new();
    for color in layouts {
        for (width, height) in [(0u32, 0u32), (0, 3), (3, 0), (1, 1), (5, 4)] {
            let image = DynamicImage::new(width, height, color);
            let len = (width * height * 4) as usize;
            let mut dest = vec![0x77; len + 2];
            assert!(libimage_into_rgba8888(Some(&image), &mut dest, &mut errors, 1));
            for pixel in dest[..len].chunks(4) {
                assert_eq!(&pixel[..3], &[0, 0, 0]);
                assert_eq!(pixel[3] == 255, !image.color().has_alpha());
            }
            assert_eq!(&dest[len..], &[0x77, 0x77]);
        }
    }
    let long = DynamicImage::ImageLuma8(image::GrayImage::from_raw(1, 2, vec![9, 8, 7, 6]).unwrap());
    let mut dest = vec![0; 8];
    assert!(libimage_into_rgba8888(Some(&long), &mut dest, &mut errors, 1));
    assert_eq!(dest, vec![9, 9, 9, 255, 8, 8, 8, 255]);
    assert_eq!(message(&errors, 1), None);
}
