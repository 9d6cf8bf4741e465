use video_thumbs::errors::ThumbnailError;
use video_thumbs::thumbnail::{seek_target, AsyncThumbnailGenerator, ThumbnailConfig};

#[test]
fn config_defaults_match_the_documented_values() {
    let config = ThumbnailConfig::default();
    assert_eq!(config.width, 320);
    assert_eq!(config.height, 180);
    assert_eq!(config.quality, 85);
    assert_eq!(config.seek_permille, 100);
    assert_eq!(config.timeout_seconds, 30);
    assert_eq!(config.max_retries, 3);
    assert!(config.fallback_enabled);
    assert!(config.is_valid());
}

#[test]
fn config_validity_checks_every_bound() {
    let mut config = ThumbnailConfig::default();
    config.width = 0;
    assert!(!config.is_valid());
    config.width = 65536;
    assert!(!config.is_valid());
    let mut config = ThumbnailConfig::default();
    config.quality = 0;
    assert!(!config.is_valid());
    let mut config = ThumbnailConfig::default();
    config.seek_permille = 1001;
    assert!(!config.is_valid());
}

#[test]
fn seek_target_takes_the_configured_fraction_of_the_duration() {
    // ten seconds in microseconds, sampled halfway
    assert_eq!(seek_target(10_000_000, 500), 5_000_000);
    // the default tenth
    assert_eq!(seek_target(10_000_000, 100), 1_000_000);
    assert_eq!(seek_target(10_000_000, 0), 0);
    assert_eq!(seek_target(10_000_000, 1000), 10_000_000);
    assert_eq!(seek_target(0, 500), 0);
    assert_eq!(seek_target(7, 500), 3);
}

#[test]
fn test_fallback_thumbnail() {
    let config = ThumbnailConfig::default();
    let generator = AsyncThumbnailGenerator::new(config);

    let result = generator.generate_fallback_thumbnail();

    assert!(result.is_ok());
}

#[test]
fn the_generator_keeps_its_configuration() {
    let mut config = ThumbnailConfig::default();
    config.max_retries = 7;
    let generator = AsyncThumbnailGenerator::new(config);
    assert_eq!(generator.config().max_retries, 7);
    let request = generator.make_request("a.mp4".to_string(), "a.jpg".to_string());
    assert_eq!(request.input_path, "a.mp4");
    assert_eq!(request.output_path, "a.jpg");
    assert_eq!(request.config.max_retries, 7);
}

#[test]
fn error_descriptions_name_the_failure() {
    assert_eq!(
        ThumbnailError::FileAccess("a.mp4".to_string()).describe(),
        "file missing or unreadable: a.mp4"
    );
    assert_eq!(
        ThumbnailError::NoVideoStream.describe(),
        "no video stream found"
    );
    assert_eq!(
        ThumbnailError::DecodingError("no valid frame".to_string()).describe(),
        "video decoding failed: no valid frame"
    );
    assert_eq!(ThumbnailError::Timeout.describe(), "timed out");
    assert_eq!(ThumbnailError::TaskCancelled.describe(), "task cancelled");
    assert_eq!(
        ThumbnailError::MemoryError("short".to_string()).describe(),
        "memory access error: short"
    );
    assert_eq!(
        ThumbnailError::IoError("denied".to_string()).describe(),
        "io error: denied"
    );
    assert_eq!(
        ThumbnailError::ImageSaveError("disk".to_string()).describe(),
        "image save failed: disk"
    );
    assert_eq!(
        ThumbnailError::FFmpegInit("bad build".to_string()).describe(),
        "ffmpeg initialization failed: bad build"
    );
}
