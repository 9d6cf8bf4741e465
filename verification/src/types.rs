//! Core data types of the video library: formats, codecs, resolutions and the
//! scanning configuration, with exact specifications of their classification
//! functions.

use vstd::prelude::*;

use crate::strutil::{dec_chars, lower_seq, push_dec, string_from_ascii, str_lower_eq};

verus! {

/// A pixel resolution.
#[derive(Debug, Clone, Copy, PartialEq, Eq, Structural)]
pub struct VideoResolution {
    pub width: u32,
    pub height: u32,
}

/// The container formats the library recognises, by file extension.
#[derive(Debug, Clone)]
pub enum VideoFormat {
    MP4,
    AVI,
    MKV,
    MOV,
    WMV,
    FLV,
    WEBM,
    M4V,
    Unknown(String),
}

/// The video codecs the library recognises.
#[derive(Debug, Clone)]
pub enum VideoCodec {
    H264,
    H265,
    VP8,
    VP9,
    AV1,
    XVID,
    Unknown(String),
}

/// Whether a media entry is audio or video.
#[derive(Debug, Clone, Copy, PartialEq, Eq, Structural)]
pub enum MediaType {
    Audio,
    Video,
}

/// The key a list of videos is sorted by.
#[derive(Debug, Clone, Copy, PartialEq, Eq, Structural)]
pub enum VideoSortBy {
    Title,
    Duration,
    FileSize,
    CreatedAt,
    ModifiedAt,
    Resolution,
}

/// The direction of a sort.
#[derive(Debug, Clone, Copy, PartialEq, Eq, Structural)]
pub enum SortDirection {
    Ascending,
    Descending,
}

/// Configuration of the video library: where to scan, which formats to
/// accept, and how thumbnails are produced.
#[derive(Debug)]
pub struct VideoLibraryConfig {
    pub scan_paths: Vec<String>,
    pub supported_formats: Vec<VideoFormat>,
    pub generate_thumbnails: bool,
    pub thumbnail_size: (u32, u32),
    pub max_file_size: Option<u64>,
}

/// Mathematical equality of two formats: the same variant, and for `Unknown`
/// the same extension text.
pub open spec fn format_eq(a: VideoFormat, b: VideoFormat) -> bool {
    match (a, b) {
        (VideoFormat::MP4, VideoFormat::MP4) => true,
        (VideoFormat::AVI, VideoFormat::AVI) => true,
        (VideoFormat::MKV, VideoFormat::MKV) => true,
        (VideoFormat::MOV, VideoFormat::MOV) => true,
        (VideoFormat::WMV, VideoFormat::WMV) => true,
        (VideoFormat::FLV, VideoFormat::FLV) => true,
        (VideoFormat::WEBM, VideoFormat::WEBM) => true,
        (VideoFormat::M4V, VideoFormat::M4V) => true,
        (VideoFormat::Unknown(x), VideoFormat::Unknown(y)) => x@ == y@,
        _ => false,
    }
}

impl PartialEq for VideoFormat {
    fn eq(&self, other: &Self) -> (r: bool) {
        match (self, other) {
            (VideoFormat::MP4, VideoFormat::MP4) => true,
            (VideoFormat::AVI, VideoFormat::AVI) => true,
            (VideoFormat::MKV, VideoFormat::MKV) => true,
            (VideoFormat::MOV, VideoFormat::MOV) => true,
            (VideoFormat::WMV, VideoFormat::WMV) => true,
            (VideoFormat::FLV, VideoFormat::FLV) => true,
            (VideoFormat::WEBM, VideoFormat::WEBM) => true,
            (VideoFormat::M4V, VideoFormat::M4V) => true,
            (VideoFormat::Unknown(x), VideoFormat::Unknown(y)) => x.eq(y),
            _ => false,
        }
    }
}

impl vstd::std_specs::cmp::PartialEqSpecImpl for VideoFormat {
    open spec fn obeys_eq_spec() -> bool {
        true
    }

    open spec fn eq_spec(&self, other: &Self) -> bool {
        format_eq(*self, *other)
    }
}

/// Mathematical equality of two codecs.
pub open spec fn codec_eq(a: VideoCodec, b: VideoCodec) -> bool {
    match (a, b) {
        (VideoCodec::H264, VideoCodec::H264) => true,
        (VideoCodec::H265, VideoCodec::H265) => true,
        (VideoCodec::VP8, VideoCodec::VP8) => true,
        (VideoCodec::VP9, VideoCodec::VP9) => true,
        (VideoCodec::AV1, VideoCodec::AV1) => true,
        (VideoCodec::XVID, VideoCodec::XVID) => true,
        (VideoCodec::Unknown(x), VideoCodec::Unknown(y)) => x@ == y@,
        _ => false,
    }
}

impl PartialEq for VideoCodec {
    fn eq(&self, other: &Self) -> (r: bool) {
        match (self, other) {
            (VideoCodec::H264, VideoCodec::H264) => true,
            (VideoCodec::H265, VideoCodec::H265) => true,
            (VideoCodec::VP8, VideoCodec::VP8) => true,
            (VideoCodec::VP9, VideoCodec::VP9) => true,
            (VideoCodec::AV1, VideoCodec::AV1) => true,
            (VideoCodec::XVID, VideoCodec::XVID) => true,
            (VideoCodec::Unknown(x), VideoCodec::Unknown(y)) => x.eq(y),
            _ => false,
        }
    }
}

impl vstd::std_specs::cmp::PartialEqSpecImpl for VideoCodec {
    open spec fn obeys_eq_spec() -> bool {
        true
    }

    open spec fn eq_spec(&self, other: &Self) -> bool {
        codec_eq(*self, *other)
    }
}

impl VideoResolution {
    pub fn new(width: u32, height: u32) -> (r: Self)
        ensures
            r.width == width,
            r.height == height,
    {
        Self { width, height }
    }

    /// The human-readable label of `self`: a conventional name for the common
    /// heights, and `"<width>x<height>"` otherwise.
    pub fn label(&self) -> (r: String)
        ensures
            r@ == spec_label(self.width as nat, self.height as nat),
    {
        if self.height == 2160 {
            String::from_str("4K")
        } else if self.height == 1440 {
            String::from_str("1440p")
        } else if self.height == 1080 {
            String::from_str("1080p")
        } else if self.height == 720 {
            String::from_str("720p")
        } else if self.height == 480 {
            String::from_str("480p")
        } else if self.height == 360 {
            String::from_str("360p")
        } else {
            let mut buf: Vec<u8> = Vec::new();
            push_dec(&mut buf, self.width);
            buf.push('x' as u8);
            push_dec(&mut buf, self.height);
            proof {
                crate::strutil::lemma_dec_rep_ascii(self.width as nat);
                crate::strutil::lemma_dec_rep_ascii(self.height as nat);
            }
            let r = string_from_ascii(buf);
            proof {
                assert(r@ =~= dec_chars(self.width as nat) + seq!['x'] + dec_chars(
                    self.height as nat,
                ));
            }
            r
        }
    }
}

/// The label `VideoResolution::label` owes for a `width`-by-`height` raster.
pub open spec fn spec_label(width: nat, height: nat) -> Seq<char> {
    if height == 2160 {
        "4K"@
    } else if height == 1440 {
        "1440p"@
    } else if height == 1080 {
        "1080p"@
    } else if height == 720 {
        "720p"@
    } else if height == 480 {
        "480p"@
    } else if height == 360 {
        "360p"@
    } else {
        dec_chars(width) + seq!['x'] + dec_chars(height)
    }
}

/// What `VideoFormat::from_extension` owes: `r` for the extension text `ext`.
pub open spec fn from_extension_spec(ext: Seq<char>, r: VideoFormat) -> bool {
    let l = lower_seq(ext);
    if l == "mp4"@ {
        r == VideoFormat::MP4
    } else if l == "avi"@ {
        r == VideoFormat::AVI
    } else if l == "mkv"@ {
        r == VideoFormat::MKV
    } else if l == "mov"@ {
        r == VideoFormat::MOV
    } else if l == "wmv"@ {
        r == VideoFormat::WMV
    } else if l == "flv"@ {
        r == VideoFormat::FLV
    } else if l == "webm"@ {
        r == VideoFormat::WEBM
    } else if l == "m4v"@ {
        r == VideoFormat::M4V
    } else {
        r matches VideoFormat::Unknown(s) && s@ == ext
    }
}

impl VideoFormat {
    /// Classifies a file extension, case-insensitively; an extension that
    /// matches no known container is kept as `Unknown`.
    pub fn from_extension(ext: &str) -> (r: Self)
        ensures
            from_extension_spec(ext@, r),
    {
        if str_lower_eq(ext, "mp4") {
            VideoFormat::MP4
        } else if str_lower_eq(ext, "avi") {
            VideoFormat::AVI
        } else if str_lower_eq(ext, "mkv") {
            VideoFormat::MKV
        } else if str_lower_eq(ext, "mov") {
            VideoFormat::MOV
        } else if str_lower_eq(ext, "wmv") {
            VideoFormat::WMV
        } else if str_lower_eq(ext, "flv") {
            VideoFormat::FLV
        } else if str_lower_eq(ext, "webm") {
            VideoFormat::WEBM
        } else if str_lower_eq(ext, "m4v") {
            VideoFormat::M4V
        } else {
            VideoFormat::Unknown(String::from_str(ext))
        }
    }

    /// The canonical extensions of `self`; none for an unknown format.
    pub fn extensions(&self) -> (r: Vec<&'static str>)
        ensures
            r@.map_values(|t: &'static str| t@) == spec_extensions(self),
    {
        let mut v: Vec<&'static str> = Vec::new();
        match self {
            VideoFormat::MP4 => v.push("mp4"),
            VideoFormat::AVI => v.push("avi"),
            VideoFormat::MKV => v.push("mkv"),
            VideoFormat::MOV => v.push("mov"),
            VideoFormat::WMV => v.push("wmv"),
            VideoFormat::FLV => v.push("flv"),
            VideoFormat::WEBM => v.push("webm"),
            VideoFormat::M4V => v.push("m4v"),
            VideoFormat::Unknown(_) => {},
        }
        proof {
            assert(v@.map_values(|t: &'static str| t@) =~= spec_extensions(self));
        }
        v
    }

    /// The MIME type of `self`.
    pub fn mime_type(&self) -> (r: &'static str)
        ensures
            r@ == spec_mime_type(self),
    {
        match self {
            VideoFormat::MP4 => "video/mp4",
            VideoFormat::AVI => "video/x-msvideo",
            VideoFormat::MKV => "video/x-matroska",
            VideoFormat::MOV => "video/quicktime",
            VideoFormat::WMV => "video/x-ms-wmv",
            VideoFormat::FLV => "video/x-flv",
            VideoFormat::WEBM => "video/webm",
            VideoFormat::M4V => "video/x-m4v",
            VideoFormat::Unknown(_) => "video/unknown",
        }
    }
}

/// The extension list `VideoFormat::extensions` owes.
pub open spec fn spec_extensions(f: &VideoFormat) -> Seq<Seq<char>> {
    match f {
        VideoFormat::MP4 => seq!["mp4"@],
        VideoFormat::AVI => seq!["avi"@],
        VideoFormat::MKV => seq!["mkv"@],
        VideoFormat::MOV => seq!["mov"@],
        VideoFormat::WMV => seq!["wmv"@],
        VideoFormat::FLV => seq!["flv"@],
        VideoFormat::WEBM => seq!["webm"@],
        VideoFormat::M4V => seq!["m4v"@],
        VideoFormat::Unknown(_) => Seq::empty(),
    }
}

/// The MIME type `VideoFormat::mime_type` owes.
pub open spec fn spec_mime_type(f: &VideoFormat) -> Seq<char> {
    match f {
        VideoFormat::MP4 => "video/mp4"@,
        VideoFormat::AVI => "video/x-msvideo"@,
        VideoFormat::MKV => "video/x-matroska"@,
        VideoFormat::MOV => "video/quicktime"@,
        VideoFormat::WMV => "video/x-ms-wmv"@,
        VideoFormat::FLV => "video/x-flv"@,
        VideoFormat::WEBM => "video/webm"@,
        VideoFormat::M4V => "video/x-m4v"@,
        VideoFormat::Unknown(_) => "video/unknown"@,
    }
}

/// What `VideoCodec::from_string` owes: `r` for the codec name `name`.
pub open spec fn from_string_spec(name: Seq<char>, r: VideoCodec) -> bool {
    let l = lower_seq(name);
    if l == "h264"@ || l == "avc"@ || l == "avc1"@ {
        r == VideoCodec::H264
    } else if l == "h265"@ || l == "hevc"@ || l == "hev1"@ {
        r == VideoCodec::H265
    } else if l == "vp8"@ {
        r == VideoCodec::VP8
    } else if l == "vp9"@ {
        r == VideoCodec::VP9
    } else if l == "av1"@ || l == "av01"@ {
        r == VideoCodec::AV1
    } else if l == "xvid"@ {
        r == VideoCodec::XVID
    } else {
        r matches VideoCodec::Unknown(s) && s@ == name
    }
}

impl VideoCodec {
    /// Classifies a codec name, case-insensitively, accepting the common
    /// aliases; an unrecognised name is kept as `Unknown`.
    pub fn from_string(codec: &str) -> (r: Self)
        ensures
            from_string_spec(codec@, r),
    {
        if str_lower_eq(codec, "h264") || str_lower_eq(codec, "avc") || str_lower_eq(
            codec,
            "avc1",
        ) {
            VideoCodec::H264
        } else if str_lower_eq(codec, "h265") || str_lower_eq(codec, "hevc") || str_lower_eq(
            codec,
            "hev1",
        ) {
            VideoCodec::H265
        } else if str_lower_eq(codec, "vp8") {
            VideoCodec::VP8
        } else if str_lower_eq(codec, "vp9") {
            VideoCodec::VP9
        } else if str_lower_eq(codec, "av1") || str_lower_eq(codec, "av01") {
            VideoCodec::AV1
        } else if str_lower_eq(codec, "xvid") {
            VideoCodec::XVID
        } else {
            VideoCodec::Unknown(String::from_str(codec))
        }
    }

    /// The display name of `self`; an unknown codec shows its own name.
    pub fn display_name(&self) -> (r: &str)
        ensures
            r@ == spec_display_name(self),
    {
        match self {
            VideoCodec::H264 => "H.264",
            VideoCodec::H265 => "H.265/HEVC",
            VideoCodec::VP8 => "VP8",
            VideoCodec::VP9 => "VP9",
            VideoCodec::AV1 => "AV1",
            VideoCodec::XVID => "XVID",
            VideoCodec::Unknown(name) => name.as_str(),
        }
    }
}

/// The display name `VideoCodec::display_name` owes.
pub open spec fn spec_display_name(c: &VideoCodec) -> Seq<char> {
    match c {
        VideoCodec::H264 => "H.264"@,
        VideoCodec::H265 => "H.265/HEVC"@,
        VideoCodec::VP8 => "VP8"@,
        VideoCodec::VP9 => "VP9"@,
        VideoCodec::AV1 => "AV1"@,
        VideoCodec::XVID => "XVID"@,
        VideoCodec::Unknown(name) => name@,
    }
}

/// The format list a default configuration supports.
pub open spec fn default_formats() -> Seq<VideoFormat> {
    seq![
        VideoFormat::MP4,
        VideoFormat::AVI,
        VideoFormat::MKV,
        VideoFormat::MOV,
        VideoFormat::WMV,
        VideoFormat::FLV,
        VideoFormat::WEBM,
        VideoFormat::M4V,
    ]
}

impl Default for VideoLibraryConfig {
    /// The default library configuration: every known container accepted,
    /// thumbnails disabled, 320 by 180 thumbnails, a 10 GiB file-size cap.
    fn default() -> (r: Self)
        ensures
            r.scan_paths@.len() == 0,
            r.supported_formats@ == default_formats(),
            r.generate_thumbnails == false,
            r.thumbnail_size == (320u32, 180u32),
            r.max_file_size == Some(10737418240u64),
    {
        let mut supported_formats: Vec<VideoFormat> = Vec::new();
        supported_formats.push(VideoFormat::MP4);
        supported_formats.push(VideoFormat::AVI);
        supported_formats.push(VideoFormat::MKV);
        supported_formats.push(VideoFormat::MOV);
        supported_formats.push(VideoFormat::WMV);
        supported_formats.push(VideoFormat::FLV);
        supported_formats.push(VideoFormat::WEBM);
        supported_formats.push(VideoFormat::M4V);
        proof {
            assert(supported_formats@ =~= default_formats());
        }
        Self {
            scan_paths: Vec::new(),
            supported_formats,
            generate_thumbnails: false,
            thumbnail_size: (320, 180),
            max_file_size: Some(10737418240),
        }
    }
}

} // verus!
