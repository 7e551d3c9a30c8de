//! A boundary layer for decoding, inspecting and re-encoding raster images:
//! byte sources and sinks over a file, a fixed buffer or a growable buffer,
//! a last-error table keyed by the calling thread, and the calls that carry
//! an image between them and a codec.
//!
//! Every handle is an owned value: an absent handle is `None`, and a call
//! that is given one records a message for the calling thread and returns
//! its sentinel. The caller names its thread by a number and lends the
//! table to each call.

pub mod codec;
pub mod cursor;
pub mod errors;
pub mod format;
pub mod pipe;
pub mod stream;

pub use codec::libimage_as_bytes;
pub use codec::libimage_destroy_image;
pub use codec::libimage_into_rgba8888;
pub use codec::libimage_metrics;
pub use codec::libimage_new_rgba8888;
pub use codec::libimage_read;
pub use codec::libimage_read_guess;
pub use codec::libimage_write;
pub use codec::ImageMetrics;
pub use codec::COLORTYPE_L16;
pub use codec::COLORTYPE_L8;
pub use codec::COLORTYPE_LA16;
pub use codec::COLORTYPE_LA8;
pub use codec::COLORTYPE_RGB16;
pub use codec::COLORTYPE_RGB32F;
pub use codec::COLORTYPE_RGB8;
pub use codec::COLORTYPE_RGBA16;
pub use codec::COLORTYPE_RGBA32F;
pub use codec::COLORTYPE_RGBA8;
pub use cursor::FixedCursor;
pub use cursor::SliceCursor;
pub use cursor::VecCursor;
pub use errors::libimage_get_err;
pub use errors::libimage_reset_err;
pub use errors::or_report;
pub use errors::set_err;
pub use errors::ErrorTable;
pub use format::u8_to_format;
pub use format::unknown_format_message;
pub use format::IMAGEFORMAT_AVIF;
pub use format::IMAGEFORMAT_BMP;
pub use format::IMAGEFORMAT_DDS;
pub use format::IMAGEFORMAT_FARBFELD;
pub use format::IMAGEFORMAT_GIF;
pub use format::IMAGEFORMAT_HDR;
pub use format::IMAGEFORMAT_ICO;
pub use format::IMAGEFORMAT_JPEG;
pub use format::IMAGEFORMAT_OPENEXR;
pub use format::IMAGEFORMAT_PNG;
pub use format::IMAGEFORMAT_PNM;
pub use format::IMAGEFORMAT_QOI;
pub use format::IMAGEFORMAT_TGA;
pub use format::IMAGEFORMAT_TIFF;
pub use format::IMAGEFORMAT_WEBP;
pub use pipe::forward_chunk;
pub use pipe::libimage_pipe;
pub use pipe::Piped;
pub use pipe::PIPE_CHUNK;
pub use stream::libimage_destroy_r;
pub use stream::libimage_destroy_w;
pub use stream::libimage_fd_r;
pub use stream::libimage_fd_w;
pub use stream::libimage_open_buf_r;
pub use stream::libimage_open_buf_w;
pub use stream::libimage_open_expanding_w;
pub use stream::libimage_open_file_r;
pub use stream::libimage_open_file_w;
pub use stream::libimage_poll;
pub use stream::libimage_w_into_r;
pub use stream::poll_outcome;
pub use stream::ReadWrap;
pub use stream::WriteWrap;
