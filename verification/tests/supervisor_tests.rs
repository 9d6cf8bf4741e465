use video_thumbs::errors::ThumbnailError;
use video_thumbs::supervisor::{Command, Event, Phase, Supervisor};
use video_thumbs::thumbnail::{AsyncThumbnailGenerator, ThumbnailConfig, ThumbnailStrategy};

fn start(config: ThumbnailConfig, strategy: ThumbnailStrategy) -> Supervisor {
    let mut generator = AsyncThumbnailGenerator::new(config);
    generator.set_strategy(strategy);
    assert!(config.is_valid());
    let (supervisor, first) = generator.begin_generation(
        "input/video.mp4".to_string(),
        "thumbs/video.jpg".to_string(),
    );
    assert!(matches!(first, Command::ProbeInput));
    supervisor
}

/// Drives a run whose every decode attempt fails with the given errors,
/// answering each command as a driver would; returns the commands seen and
/// the settled outcome.
fn drive_all_failing(
    config: ThumbnailConfig,
    errors: Vec<ThumbnailError>,
    fallback_succeeds: bool,
) -> (Vec<&'static str>, Result<String, ThumbnailError>) {
    let mut supervisor = start(config, ThumbnailStrategy::FFmpeg);
    let mut seen: Vec<&'static str> = Vec::new();
    let mut next_error = errors.into_iter();
    let mut cmd = supervisor.step(Event::InputChecked { exists: true });
    loop {
        match cmd {
            Command::PrepareOutput => {
                seen.push("prepare");
                cmd = supervisor.step(Event::OutputPrepared { error: None });
            }
            Command::RunAttempt { .. } => {
                seen.push("attempt");
                let e = next_error.next().expect("more attempts than errors");
                cmd = supervisor.step(Event::AttemptFinished { result: Err(e) });
            }
            Command::Sleep { .. } => {
                seen.push("sleep");
                cmd = supervisor.step(Event::SleepElapsed);
            }
            Command::RunFallback => {
                seen.push("fallback");
                let result = if fallback_succeeds {
                    Ok(())
                } else {
                    Err(ThumbnailError::ImageSaveError("disk full".to_string()))
                };
                cmd = supervisor.step(Event::FallbackFinished { result });
            }
            Command::Stop => break,
            Command::ProbeInput => unreachable!(),
        }
    }
    (seen, supervisor.outcome())
}

#[test]
fn missing_input_fails_fast_without_sleeping() {
    let supervisor = start(ThumbnailConfig::default(), ThumbnailStrategy::FFmpeg);
    let mut supervisor = supervisor;
    let cmd = supervisor.step(Event::InputChecked { exists: false });
    assert!(matches!(cmd, Command::Stop));
    assert!(matches!(supervisor.phase, Phase::Finished { .. }));
    let outcome = supervisor.outcome();
    assert_eq!(
        outcome,
        Err(ThumbnailError::FileAccess("input/video.mp4".to_string()))
    );
}

#[test]
fn successful_first_attempt_settles_at_the_output_path() {
    let mut supervisor = start(ThumbnailConfig::default(), ThumbnailStrategy::FFmpeg);
    let cmd = supervisor.step(Event::InputChecked { exists: true });
    assert!(matches!(cmd, Command::PrepareOutput));
    let cmd = supervisor.step(Event::OutputPrepared { error: None });
    assert!(matches!(cmd, Command::RunAttempt { .. }));
    let cmd = supervisor.step(Event::AttemptFinished { result: Ok(()) });
    assert!(matches!(cmd, Command::Stop));
    assert_eq!(supervisor.outcome(), Ok("thumbs/video.jpg".to_string()));
}

#[test]
fn always_failing_decode_exhausts_exactly_max_retries_plus_one_attempts() {
    let mut config = ThumbnailConfig::default();
    config.max_retries = 3;
    let errors: Vec<ThumbnailError> = (0..4)
        .map(|i| ThumbnailError::DecodingError(format!("attempt {}", i)))
        .collect();
    let (seen, outcome) = drive_all_failing(config, errors, true);
    let attempts = seen.iter().filter(|s| **s == "attempt").count();
    assert_eq!(attempts, 4);
    let fallbacks = seen.iter().filter(|s| **s == "fallback").count();
    assert_eq!(fallbacks, 1);
    // the fallback only runs after every attempt has failed
    assert_eq!(seen.last(), Some(&"fallback"));
    assert_eq!(outcome, Ok("thumbs/video.jpg".to_string()));
}

#[test]
fn backoff_is_linear_in_the_attempt_number() {
    let mut config = ThumbnailConfig::default();
    config.max_retries = 2;
    let mut supervisor = start(config, ThumbnailStrategy::FFmpeg);
    supervisor.step(Event::InputChecked { exists: true });
    let cmd = supervisor.step(Event::OutputPrepared { error: None });
    assert!(matches!(cmd, Command::RunAttempt { .. }));
    let cmd = supervisor.step(Event::AttemptFinished {
        result: Err(ThumbnailError::NoVideoStream),
    });
    assert!(matches!(cmd, Command::Sleep { millis: 1000 }));
    let cmd = supervisor.step(Event::SleepElapsed);
    assert!(matches!(cmd, Command::RunAttempt { .. }));
    let cmd = supervisor.step(Event::AttemptFinished {
        result: Err(ThumbnailError::NoVideoStream),
    });
    assert!(matches!(cmd, Command::Sleep { millis: 2000 }));
}

#[test]
fn with_fallback_disabled_the_last_error_surfaces() {
    let mut config = ThumbnailConfig::default();
    config.max_retries = 3;
    config.fallback_enabled = false;
    let errors: Vec<ThumbnailError> = (0..4)
        .map(|i| ThumbnailError::DecodingError(format!("attempt {}", i)))
        .collect();
    let (seen, outcome) = drive_all_failing(config, errors, true);
    assert_eq!(seen.iter().filter(|s| **s == "attempt").count(), 4);
    assert_eq!(seen.iter().filter(|s| **s == "fallback").count(), 0);
    assert_eq!(
        outcome,
        Err(ThumbnailError::DecodingError("attempt 3".to_string()))
    );
}

#[test]
fn failed_fallback_surfaces_the_fallbacks_own_error() {
    let mut config = ThumbnailConfig::default();
    config.max_retries = 0;
    let errors = vec![ThumbnailError::DecodingError("no valid frame".to_string())];
    let (seen, outcome) = drive_all_failing(config, errors, false);
    assert_eq!(seen.iter().filter(|s| **s == "attempt").count(), 1);
    assert_eq!(seen.last(), Some(&"fallback"));
    // the fallback's result is the request's result, its failure included
    assert_eq!(
        outcome,
        Err(ThumbnailError::ImageSaveError("disk full".to_string()))
    );
}

#[test]
fn an_expired_deadline_settles_as_timeout() {
    let mut supervisor = start(ThumbnailConfig::default(), ThumbnailStrategy::FFmpeg);
    supervisor.step(Event::InputChecked { exists: true });
    supervisor.step(Event::OutputPrepared { error: None });
    let cmd = supervisor.step(Event::DeadlineExpired);
    assert!(matches!(cmd, Command::Stop));
    assert_eq!(supervisor.outcome(), Err(ThumbnailError::Timeout));
}

#[test]
fn a_directory_failure_settles_as_io_error() {
    let mut supervisor = start(ThumbnailConfig::default(), ThumbnailStrategy::FFmpeg);
    supervisor.step(Event::InputChecked { exists: true });
    let cmd = supervisor.step(Event::OutputPrepared {
        error: Some("permission denied".to_string()),
    });
    assert!(matches!(cmd, Command::Stop));
    assert_eq!(
        supervisor.outcome(),
        Err(ThumbnailError::IoError("permission denied".to_string()))
    );
}

#[test]
fn the_run_attempt_carries_the_selected_strategy() {
    let mut supervisor = start(ThumbnailConfig::default(), ThumbnailStrategy::Fallback);
    supervisor.step(Event::InputChecked { exists: true });
    let cmd = supervisor.step(Event::OutputPrepared { error: None });
    assert!(matches!(
        cmd,
        Command::RunAttempt {
            strategy: ThumbnailStrategy::Fallback
        }
    ));
}

#[test]
fn an_undecodable_input_falls_back_to_the_gradient_at_the_configured_size() {
    // a file that looks like a video but holds no decodable frame: every
    // attempt fails with a decode-related error, retries are exhausted,
    // and the enabled fallback settles the request successfully
    let config = ThumbnailConfig::default();
    let errors: Vec<ThumbnailError> = (0..4)
        .map(|_| ThumbnailError::DecodingError("open failed: invalid data".to_string()))
        .collect();
    let (seen, outcome) = drive_all_failing(config, errors, true);
    assert_eq!(seen.iter().filter(|s| **s == "attempt").count(), 4);
    assert_eq!(outcome, Ok("thumbs/video.jpg".to_string()));

    // what the fallback would have written: a gradient image of exactly
    // the configured geometry
    let generator = AsyncThumbnailGenerator::new(config);
    let bytes = generator.generate_fallback_thumbnail().unwrap();
    let decoded = image::load_from_memory(&bytes).unwrap();
    assert_eq!(decoded.width(), 320);
    assert_eq!(decoded.height(), 180);
}

#[test]
fn the_system_api_strategy_reports_itself_unimplemented() {
    let result = AsyncThumbnailGenerator::generate_with_system_api();
    assert_eq!(
        result,
        Err(ThumbnailError::DecodingError(
            "system API thumbnail generation is not implemented".to_string()
        ))
    );
}
