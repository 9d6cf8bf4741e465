//! Thumbnail generation: the configuration, the strategy selector, the
//! per-request data, and the generator whose decisions the supervisor and
//! batch modules carry out.

use vstd::prelude::*;

use crate::errors::ThumbnailError;
use crate::raster::{
    converted_pixels, encode_raster, fallback_raster, frame_to_raster, gradient_pixels,
    jpeg_encoding, DecodedFrame,
};

verus! {

/// How a thumbnail is produced: the native decoder, an OS-native API (not
/// implemented), or the deterministic fallback gradient.
#[derive(Debug, Clone, Copy, PartialEq, Eq, Structural)]
pub enum ThumbnailStrategy {
    FFmpeg,
    SystemApi,
    Fallback,
}

/// How thumbnails are produced: output geometry and quality, where in the
/// media to sample, and how failures are retried.  The seek position is a
/// fraction of the duration in thousandths.
#[derive(Debug, Clone, Copy, PartialEq, Eq, Structural)]
pub struct ThumbnailConfig {
    pub width: u32,
    pub height: u32,
    pub quality: u8,
    pub seek_permille: u32,
    pub timeout_seconds: u64,
    pub max_retries: u32,
    pub fallback_enabled: bool,
}

impl ThumbnailConfig {
    /// The geometry is positive and encodable, the quality a JPEG quality,
    /// and the seek position at most the whole duration.
    pub open spec fn valid(&self) -> bool {
        &&& 1 <= self.width <= 65535
        &&& 1 <= self.height <= 65535
        &&& 1 <= self.quality <= 100
        &&& self.seek_permille <= 1000
    }

    /// Checks `valid` at run time, for configurations built from input
    /// that was not known ahead of time.
    pub fn is_valid(&self) -> (r: bool)
        ensures
            r == self.valid(),
    {
        1 <= self.width && self.width <= 65535 && 1 <= self.height && self.height <= 65535
            && 1 <= self.quality && self.quality <= 100 && self.seek_permille <= 1000
    }
}

impl Default for ThumbnailConfig {
    /// The default configuration: a 320 by 180 thumbnail of quality 85,
    /// sampled a tenth into the media, half a minute of deadline, three
    /// retries, fallback enabled.
    fn default() -> (r: Self)
        ensures
            r == (ThumbnailConfig {
                width: 320,
                height: 180,
                quality: 85,
                seek_permille: 100,
                timeout_seconds: 30,
                max_retries: 3,
                fallback_enabled: true,
            }),
            r.valid(),
    {
        ThumbnailConfig {
            width: 320,
            height: 180,
            quality: 85,
            seek_permille: 100,
            timeout_seconds: 30,
            max_retries: 3,
            fallback_enabled: true,
        }
    }
}

/// One thumbnail request: where to read, where to write, and the
/// configuration copied in when the request was made.
#[derive(Debug, Clone)]
pub struct GenerationRequest {
    pub input_path: String,
    pub output_path: String,
    pub config: ThumbnailConfig,
}

/// What one request came to: the written output path, or why it failed.
pub type GenerationOutcome = Result<String, ThumbnailError>;

/// The timestamp at the configured fraction of a duration, in the
/// duration's own unit.
pub fn seek_target(duration: i64, seek_permille: u32) -> (r: i64)
    requires
        0 <= duration,
        seek_permille <= 1000,
    ensures
        r == duration * seek_permille / 1000,
        0 <= r <= duration,
{
    proof {
        assert(duration * seek_permille <= duration * 1000) by (nonlinear_arith)
            requires
                0 <= duration,
                seek_permille <= 1000,
        ;
        assert(0 <= duration * seek_permille) by (nonlinear_arith)
            requires
                0 <= duration,
                0 <= seek_permille,
        ;
        assert(duration * 1000 / 1000 == duration) by (nonlinear_arith);
        assert(duration * seek_permille / 1000 <= duration * 1000 / 1000) by (nonlinear_arith)
            requires
                0 <= duration * seek_permille <= duration * 1000,
        ;
    }
    ((duration as i128) * (seek_permille as i128) / 1000) as i64
}

/// A thumbnail generator: the configuration it was built with and the
/// strategy it currently dispatches to.  The asynchronous work itself is
/// carried out by a driver following the supervisor's commands.
#[derive(Debug, Clone)]
pub struct AsyncThumbnailGenerator {
    config: ThumbnailConfig,
    strategy: ThumbnailStrategy,
}

impl AsyncThumbnailGenerator {
    /// The configuration this generator was built with.
    pub closed spec fn spec_config(&self) -> ThumbnailConfig {
        self.config
    }

    /// The strategy the next request will dispatch to.
    pub closed spec fn spec_strategy(&self) -> ThumbnailStrategy {
        self.strategy
    }

    pub fn new(config: ThumbnailConfig) -> (r: Self)
        ensures
            r.spec_config() == config,
            r.spec_strategy() == ThumbnailStrategy::FFmpeg,
    {
        Self { config, strategy: ThumbnailStrategy::FFmpeg }
    }

    /// Selects the mechanism the next request dispatches to.
    pub fn set_strategy(&mut self, strategy: ThumbnailStrategy)
        ensures
            final(self).spec_strategy() == strategy,
            final(self).spec_config() == old(self).spec_config(),
    {
        self.strategy = strategy;
    }

    /// The current configuration.
    pub fn config(&self) -> (r: &ThumbnailConfig)
        ensures
            *r == self.spec_config(),
    {
        &self.config
    }

    /// Makes the request that one generation run will consume: the paths,
    /// and a copy of the configuration as it stands now.
    pub fn make_request(&self, input_path: String, output_path: String) -> (r: GenerationRequest)
        ensures
            r.input_path == input_path,
            r.output_path == output_path,
            r.config == self.spec_config(),
    {
        GenerationRequest { input_path, output_path, config: self.config }
    }

    /// The OS-native generation path.  It is not implemented, and every call
    /// reports exactly that.
    pub fn generate_with_system_api() -> (r: Result<(), ThumbnailError>)
        ensures
            r matches Err(e) && e matches ThumbnailError::DecodingError(d) && d@
                == "system API thumbnail generation is not implemented"@,
    {
        Err(
            ThumbnailError::DecodingError(
                String::from_str("system API thumbnail generation is not implemented"),
            ),
        )
    }

    /// Renders the fallback gradient at the configured geometry and encodes
    /// it at the configured quality.  It depends on no decoder and always
    /// succeeds: only writing the returned stream out, which is the
    /// caller's step, can still fail.
    pub fn generate_fallback_thumbnail(&self) -> (r: Result<Vec<u8>, ThumbnailError>)
        requires
            self.spec_config().valid(),
        ensures
            r matches Ok(b) && b@ == jpeg_encoding(
                gradient_pixels(
                    self.spec_config().width as nat,
                    self.spec_config().height as nat,
                ),
                self.spec_config().width as nat,
                self.spec_config().height as nat,
                self.spec_config().quality,
            ),
    {
        let img = fallback_raster(self.config.width, self.config.height);
        encode_raster(&img, self.config.quality)
    }

    /// Begins one supervised generation run for these paths, consuming a
    /// copy of the configuration and strategy as they stand now.  The
    /// returned command is the driver's first duty; the run proceeds by
    /// feeding each observation to `Supervisor::step`.
    pub fn begin_generation(&self, input_path: String, output_path: String) -> (r: (
        crate::supervisor::Supervisor,
        crate::supervisor::Command,
    ))
        requires
            self.spec_config().valid(),
        ensures
            r.0.wf(),
            r.0.request.input_path == input_path,
            r.0.request.output_path == output_path,
            r.0.request.config == self.spec_config(),
            r.0.strategy == self.spec_strategy(),
            r.0.phase == crate::supervisor::Phase::CheckingInput,
            r.1 == crate::supervisor::Command::ProbeInput,
    {
        let request = self.make_request(input_path, output_path);
        crate::supervisor::Supervisor::begin(request, self.strategy)
    }

    /// Interprets a decoded frame defensively and encodes it as a JPEG
    /// stream: the buffer is bounds-checked against the reported stride, a
    /// pixel past the end of the buffer degrades to black, and an undersized
    /// buffer is refused as `MemoryError` instead of being read out of
    /// bounds.  A buffer that holds its declared rows is owed an encoding.
    pub fn save_rgb_frame_safely(frame: &DecodedFrame, quality: u8) -> (r: Result<
        Vec<u8>,
        ThumbnailError,
    >)
        requires
            1 <= frame.width <= 65535,
            1 <= frame.height <= 65535,
            1 <= quality <= 100,
        ensures
            frame.data@.len() >= frame.height * frame.stride ==> r is Ok,
            r matches Ok(b) ==> {
                &&& frame.data@.len() >= frame.height * frame.stride
                &&& b@ == jpeg_encoding(
                    converted_pixels(
                        frame.data@,
                        frame.stride as nat,
                        frame.width as nat,
                        frame.height as nat,
                    ),
                    frame.width as nat,
                    frame.height as nat,
                    quality,
                )
            },
            r matches Err(e) ==> {
                &&& e matches ThumbnailError::MemoryError(_)
                &&& frame.data@.len() < frame.height * frame.stride
            },
    {
        let img = frame_to_raster(frame)?;
        encode_raster(&img, quality)
    }
}

} // verus!
