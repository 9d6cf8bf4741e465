use video_thumbs::scanner::{extension_of, VideoScanner};
use video_thumbs::types::{VideoFormat, VideoLibraryConfig};

#[test]
fn test_supported_extensions() {
    let config = VideoLibraryConfig::default();
    let scanner = VideoScanner::new(config);
    let extensions = scanner.get_supported_extensions();

    assert!(extensions.contains(&"mp4".to_string()));
    assert!(extensions.contains(&"avi".to_string()));
    assert!(extensions.contains(&"mkv".to_string()));
}

#[test]
fn test_is_video_file() {
    let config = VideoLibraryConfig::default();
    let scanner = VideoScanner::new(config);

    assert!(scanner.is_video_file("test.mp4"));
    assert!(scanner.is_video_file("test.avi"));
    assert!(!scanner.is_video_file("test.txt"));
    assert!(!scanner.is_video_file("test.mp3"));
}

#[test]
fn test_get_mime_type() {
    let config = VideoLibraryConfig::default();
    let scanner = VideoScanner::new(config);

    assert_eq!(
        scanner.get_mime_type("test.mp4"),
        Some("video/mp4".to_string())
    );
    assert_eq!(
        scanner.get_mime_type("test.avi"),
        Some("video/x-msvideo".to_string())
    );
    assert_eq!(scanner.get_mime_type("test.txt"), None);
}

#[test]
fn supported_extensions_are_sorted_and_deduplicated() {
    let config = VideoLibraryConfig::default();
    let scanner = VideoScanner::new(config);
    let extensions = scanner.get_supported_extensions();
    assert_eq!(
        extensions,
        vec!["avi", "flv", "m4v", "mkv", "mov", "mp4", "webm", "wmv"]
    );
}

#[test]
fn supported_extensions_follow_the_configuration() {
    let mut config = VideoLibraryConfig::default();
    config.supported_formats = vec![VideoFormat::MP4, VideoFormat::MKV, VideoFormat::MP4];
    let scanner = VideoScanner::new(config);
    assert_eq!(scanner.get_supported_extensions(), vec!["mkv", "mp4"]);
}

#[test]
fn extension_extraction_matches_path_semantics() {
    assert_eq!(extension_of("test.mp4"), Some("mp4"));
    assert_eq!(extension_of("dir/video.webm"), Some("webm"));
    assert_eq!(extension_of("archive.tar.gz"), Some("gz"));
    assert_eq!(extension_of(".gitignore"), None);
    assert_eq!(extension_of("noext"), None);
    assert_eq!(extension_of("dir.d/file"), None);
    assert_eq!(extension_of("trailing."), Some(""));
    // a path ending in a separator has no extension here
    assert_eq!(extension_of("dir.mp4/"), None);
}

#[test]
fn classification_is_case_insensitive() {
    let config = VideoLibraryConfig::default();
    let scanner = VideoScanner::new(config);
    assert!(scanner.is_video_file("CLIP.MP4"));
    assert!(scanner.is_video_file("Movie.MkV"));
    assert_eq!(
        scanner.get_mime_type("CLIP.WEBM"),
        Some("video/webm".to_string())
    );
}

#[test]
fn unknown_formats_in_the_configuration_claim_their_extension() {
    let mut config = VideoLibraryConfig::default();
    config.supported_formats = vec![VideoFormat::Unknown("xyz".to_string())];
    let scanner = VideoScanner::new(config);
    assert!(scanner.is_video_file("clip.xyz"));
    assert!(scanner.is_video_file("clip.XYZ"));
    assert!(!scanner.is_video_file("clip.mp4"));
    assert_eq!(
        scanner.get_mime_type("clip.xyz"),
        Some("video/unknown".to_string())
    );
    assert_eq!(scanner.get_supported_extensions(), Vec::<String>::new());
}
