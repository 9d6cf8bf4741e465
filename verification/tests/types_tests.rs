use video_thumbs::types::{
    MediaType, SortDirection, VideoCodec, VideoFormat, VideoLibraryConfig, VideoResolution,
    VideoSortBy,
};

#[test]
fn format_from_extension_recognises_known_containers() {
    assert_eq!(VideoFormat::from_extension("mp4"), VideoFormat::MP4);
    assert_eq!(VideoFormat::from_extension("MP4"), VideoFormat::MP4);
    assert_eq!(VideoFormat::from_extension("avi"), VideoFormat::AVI);
    assert_eq!(VideoFormat::from_extension("mkv"), VideoFormat::MKV);
    assert_eq!(VideoFormat::from_extension("mov"), VideoFormat::MOV);
    assert_eq!(VideoFormat::from_extension("wmv"), VideoFormat::WMV);
    assert_eq!(VideoFormat::from_extension("flv"), VideoFormat::FLV);
    assert_eq!(VideoFormat::from_extension("webm"), VideoFormat::WEBM);
    assert_eq!(VideoFormat::from_extension("m4v"), VideoFormat::M4V);
}

#[test]
fn format_from_extension_keeps_unknown_text() {
    assert_eq!(
        VideoFormat::from_extension("xyz"),
        VideoFormat::Unknown("xyz".to_string())
    );
    // the unknown text is kept as given, not lower-cased
    assert_eq!(
        VideoFormat::from_extension("XYZ"),
        VideoFormat::Unknown("XYZ".to_string())
    );
    assert_ne!(
        VideoFormat::from_extension("XYZ"),
        VideoFormat::Unknown("xyz".to_string())
    );
}

#[test]
fn format_extensions_and_mime_types() {
    assert_eq!(VideoFormat::MP4.extensions(), vec!["mp4"]);
    assert_eq!(VideoFormat::WEBM.extensions(), vec!["webm"]);
    assert_eq!(
        VideoFormat::Unknown("x".to_string()).extensions(),
        Vec::<&str>::new()
    );
    assert_eq!(VideoFormat::MP4.mime_type(), "video/mp4");
    assert_eq!(VideoFormat::AVI.mime_type(), "video/x-msvideo");
    assert_eq!(VideoFormat::MKV.mime_type(), "video/x-matroska");
    assert_eq!(VideoFormat::MOV.mime_type(), "video/quicktime");
    assert_eq!(VideoFormat::WMV.mime_type(), "video/x-ms-wmv");
    assert_eq!(VideoFormat::FLV.mime_type(), "video/x-flv");
    assert_eq!(VideoFormat::WEBM.mime_type(), "video/webm");
    assert_eq!(VideoFormat::M4V.mime_type(), "video/x-m4v");
    assert_eq!(
        VideoFormat::Unknown("x".to_string()).mime_type(),
        "video/unknown"
    );
}

#[test]
fn codec_from_string_accepts_aliases() {
    assert_eq!(VideoCodec::from_string("h264"), VideoCodec::H264);
    assert_eq!(VideoCodec::from_string("AVC"), VideoCodec::H264);
    assert_eq!(VideoCodec::from_string("avc1"), VideoCodec::H264);
    assert_eq!(VideoCodec::from_string("hevc"), VideoCodec::H265);
    assert_eq!(VideoCodec::from_string("hev1"), VideoCodec::H265);
    assert_eq!(VideoCodec::from_string("vp8"), VideoCodec::VP8);
    assert_eq!(VideoCodec::from_string("VP9"), VideoCodec::VP9);
    assert_eq!(VideoCodec::from_string("av01"), VideoCodec::AV1);
    assert_eq!(VideoCodec::from_string("xvid"), VideoCodec::XVID);
    assert_eq!(
        VideoCodec::from_string("weird"),
        VideoCodec::Unknown("weird".to_string())
    );
}

#[test]
fn codec_display_names() {
    assert_eq!(VideoCodec::H264.display_name(), "H.264");
    assert_eq!(VideoCodec::H265.display_name(), "H.265/HEVC");
    assert_eq!(VideoCodec::VP8.display_name(), "VP8");
    assert_eq!(VideoCodec::VP9.display_name(), "VP9");
    assert_eq!(VideoCodec::AV1.display_name(), "AV1");
    assert_eq!(VideoCodec::XVID.display_name(), "XVID");
    assert_eq!(
        VideoCodec::Unknown("prores".to_string()).display_name(),
        "prores"
    );
}

#[test]
fn resolution_labels() {
    assert_eq!(VideoResolution::new(3840, 2160).label(), "4K");
    assert_eq!(VideoResolution::new(2560, 1440).label(), "1440p");
    assert_eq!(VideoResolution::new(1920, 1080).label(), "1080p");
    assert_eq!(VideoResolution::new(1280, 720).label(), "720p");
    assert_eq!(VideoResolution::new(854, 480).label(), "480p");
    assert_eq!(VideoResolution::new(640, 360).label(), "360p");
    assert_eq!(VideoResolution::new(640, 400).label(), "640x400");
    assert_eq!(VideoResolution::new(0, 0).label(), "0x0");
    assert_eq!(VideoResolution::new(4096, 2304).label(), "4096x2304");
}

#[test]
fn library_config_defaults() {
    let config = VideoLibraryConfig::default();
    assert!(config.scan_paths.is_empty());
    assert_eq!(config.supported_formats.len(), 8);
    assert!(config.supported_formats.contains(&VideoFormat::MP4));
    assert!(config.supported_formats.contains(&VideoFormat::M4V));
    assert!(!config.generate_thumbnails);
    assert_eq!(config.thumbnail_size, (320, 180));
    assert_eq!(config.max_file_size, Some(10 * 1024 * 1024 * 1024));
}

#[test]
fn sort_options_compare_structurally() {
    assert_ne!(MediaType::Audio, MediaType::Video);
    assert_eq!(VideoSortBy::Title, VideoSortBy::Title);
    assert_ne!(VideoSortBy::Duration, VideoSortBy::FileSize);
    assert_eq!(SortDirection::Ascending, SortDirection::Ascending);
    assert_ne!(SortDirection::Ascending, SortDirection::Descending);
}
