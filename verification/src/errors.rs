//! The error taxonomy of the thumbnail pipeline.

use vstd::prelude::*;

verus! {

/// Why a thumbnail could not be produced.  Details carried by a variant are
/// plain text taken from the failing step.
#[derive(Debug, Clone)]
pub enum ThumbnailError {
    /// The one-time initialization of the native media library failed.
    FFmpegInit(String),
    /// The input file does not exist or cannot be opened.
    FileAccess(String),
    /// The container holds no video stream.
    NoVideoStream,
    /// Demuxing, seeking, decoding or scaling failed.
    DecodingError(String),
    /// Encoding or writing the output image failed.
    ImageSaveError(String),
    /// A decoded frame buffer was smaller than its declared geometry.
    MemoryError(String),
    /// An input/output step outside decode and encode failed.
    IoError(String),
    /// The unit of work was aborted before it produced a result.
    TaskCancelled,
    /// The overall deadline elapsed before the work finished.
    Timeout,
}

/// Mathematical equality of two errors: the same variant with the same detail.
pub open spec fn error_eq(a: ThumbnailError, b: ThumbnailError) -> bool {
    match (a, b) {
        (ThumbnailError::FFmpegInit(x), ThumbnailError::FFmpegInit(y)) => x@ == y@,
        (ThumbnailError::FileAccess(x), ThumbnailError::FileAccess(y)) => x@ == y@,
        (ThumbnailError::NoVideoStream, ThumbnailError::NoVideoStream) => true,
        (ThumbnailError::DecodingError(x), ThumbnailError::DecodingError(y)) => x@ == y@,
        (ThumbnailError::ImageSaveError(x), ThumbnailError::ImageSaveError(y)) => x@ == y@,
        (ThumbnailError::MemoryError(x), ThumbnailError::MemoryError(y)) => x@ == y@,
        (ThumbnailError::IoError(x), ThumbnailError::IoError(y)) => x@ == y@,
        (ThumbnailError::TaskCancelled, ThumbnailError::TaskCancelled) => true,
        (ThumbnailError::Timeout, ThumbnailError::Timeout) => true,
        _ => false,
    }
}

impl PartialEq for ThumbnailError {
    fn eq(&self, other: &Self) -> (r: bool) {
        match (self, other) {
            (ThumbnailError::FFmpegInit(x), ThumbnailError::FFmpegInit(y)) => x.eq(y),
            (ThumbnailError::FileAccess(x), ThumbnailError::FileAccess(y)) => x.eq(y),
            (ThumbnailError::NoVideoStream, ThumbnailError::NoVideoStream) => true,
            (ThumbnailError::DecodingError(x), ThumbnailError::DecodingError(y)) => x.eq(y),
            (ThumbnailError::ImageSaveError(x), ThumbnailError::ImageSaveError(y)) => x.eq(y),
            (ThumbnailError::MemoryError(x), ThumbnailError::MemoryError(y)) => x.eq(y),
            (ThumbnailError::IoError(x), ThumbnailError::IoError(y)) => x.eq(y),
            (ThumbnailError::TaskCancelled, ThumbnailError::TaskCancelled) => true,
            (ThumbnailError::Timeout, ThumbnailError::Timeout) => true,
            _ => false,
        }
    }
}

impl vstd::std_specs::cmp::PartialEqSpecImpl for ThumbnailError {
    open spec fn obeys_eq_spec() -> bool {
        true
    }

    open spec fn eq_spec(&self, other: &Self) -> bool {
        error_eq(*self, *other)
    }
}

/// The text `ThumbnailError::describe` owes.
pub open spec fn spec_describe(e: &ThumbnailError) -> Seq<char> {
    match e {
        ThumbnailError::FFmpegInit(d) => "ffmpeg initialization failed: "@ + d@,
        ThumbnailError::FileAccess(d) => "file missing or unreadable: "@ + d@,
        ThumbnailError::NoVideoStream => "no video stream found"@,
        ThumbnailError::DecodingError(d) => "video decoding failed: "@ + d@,
        ThumbnailError::ImageSaveError(d) => "image save failed: "@ + d@,
        ThumbnailError::MemoryError(d) => "memory access error: "@ + d@,
        ThumbnailError::IoError(d) => "io error: "@ + d@,
        ThumbnailError::TaskCancelled => "task cancelled"@,
        ThumbnailError::Timeout => "timed out"@,
    }
}

impl ThumbnailError {
    /// One line of text naming the failure and its detail.
    pub fn describe(&self) -> (r: String)
        ensures
            r@ == spec_describe(self),
    {
        match self {
            ThumbnailError::FFmpegInit(d) => String::from_str(
                "ffmpeg initialization failed: ",
            ).concat(d.as_str()),
            ThumbnailError::FileAccess(d) => String::from_str(
                "file missing or unreadable: ",
            ).concat(d.as_str()),
            ThumbnailError::NoVideoStream => String::from_str("no video stream found"),
            ThumbnailError::DecodingError(d) => String::from_str("video decoding failed: ").concat(
                d.as_str(),
            ),
            ThumbnailError::ImageSaveError(d) => String::from_str("image save failed: ").concat(
                d.as_str(),
            ),
            ThumbnailError::MemoryError(d) => String::from_str("memory access error: ").concat(
                d.as_str(),
            ),
            ThumbnailError::IoError(d) => String::from_str("io error: ").concat(d.as_str()),
            ThumbnailError::TaskCancelled => String::from_str("task cancelled"),
            ThumbnailError::Timeout => String::from_str("timed out"),
        }
    }
}

} // verus!
