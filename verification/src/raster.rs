//! Interpretation of raw decoded frame buffers as bounded raster images, the
//! deterministic fallback gradient, and JPEG encoding of a raster.

use vstd::arithmetic::div_mod::{
    lemma_fundamental_div_mod_converse, lemma_multiply_divide_lt,
};
use vstd::prelude::*;

use crate::errors::ThumbnailError;

verus! {

/// A raw frame as the decoder hands it over: an interleaved 3-channel pixel
/// buffer whose rows start `stride` bytes apart.  The stride is whatever the
/// decoder reports; it may exceed `width * 3` because of alignment padding,
/// and nothing here trusts it.
#[derive(Debug)]
pub struct DecodedFrame {
    pub data: Vec<u8>,
    pub width: u32,
    pub height: u32,
    pub stride: usize,
}

/// A packed interleaved RGB raster of exactly `width * height` pixels.
#[derive(Debug, Clone)]
pub struct RasterImage {
    pub data: Vec<u8>,
    pub width: u32,
    pub height: u32,
}

impl RasterImage {
    /// The buffer holds exactly three bytes per pixel.
    pub open spec fn wf(&self) -> bool {
        self.data@.len() == self.width * self.height * 3
    }

    /// The byte triple of the pixel at `(x, y)`.
    pub open spec fn spec_pixel(&self, x: int, y: int) -> (u8, u8, u8) {
        let off = (y * self.width + x) * 3;
        (self.data@[off], self.data@[off + 1], self.data@[off + 2])
    }

    /// Reads the pixel at `(x, y)`.
    pub fn pixel(&self, x: u32, y: u32) -> (r: (u8, u8, u8))
        requires
            self.wf(),
            x < self.width,
            y < self.height,
        ensures
            r == self.spec_pixel(x as int, y as int),
    {
        let n = self.data.len();
        proof {
            assert((y * self.width + x) * 3 + 2 < self.width * self.height * 3)
                by (nonlinear_arith)
                requires
                    x < self.width,
                    y < self.height,
            ;
        }
        let off = (y as usize * self.width as usize + x as usize) * 3;
        (self.data[off], self.data[off + 1], self.data[off + 2])
    }
}

/// The byte of channel `ch` of the pixel at `(x, y)` read from a decoded
/// buffer at the given stride; a pixel whose bytes would lie past the end of
/// the buffer reads as black.
pub open spec fn frame_byte(data: Seq<u8>, stride: nat, x: nat, y: nat, ch: nat) -> u8 {
    let off = y * stride + x * 3;
    if off + 2 < data.len() {
        data[(off + ch) as int]
    } else {
        0
    }
}

/// The packed bytes of the `w`-by-`h` raster read from a decoded buffer.
pub open spec fn converted_pixels(data: Seq<u8>, stride: nat, w: nat, h: nat) -> Seq<u8> {
    Seq::new(
        w * h * 3,
        |k: int|
            {
                let p = k / 3;
                let ch = k % 3;
                let y = p / (w as int);
                let x = p % (w as int);
                frame_byte(data, stride, x as nat, y as nat, ch as nat)
            },
    )
}

/// The packed bytes of the `w`-by-`h` fallback gradient: red rises with the
/// column, green with the row, blue is fixed.
pub open spec fn gradient_byte(w: nat, h: nat, x: nat, y: nat, ch: nat) -> u8 {
    if ch == 0 {
        ((x * 255) / w) as u8
    } else if ch == 1 {
        ((y * 255) / h) as u8
    } else {
        128
    }
}

/// The packed bytes of the `w`-by-`h` fallback gradient raster.
pub open spec fn gradient_pixels(w: nat, h: nat) -> Seq<u8> {
    Seq::new(
        w * h * 3,
        |k: int|
            {
                let p = k / 3;
                let ch = k % 3;
                let y = p / (w as int);
                let x = p % (w as int);
                gradient_byte(w, h, x as nat, y as nat, ch as nat)
            },
    )
}

/// The flat index of channel `ch` of pixel `(x, y)` decomposes back into
/// exactly those coordinates.
proof fn lemma_flat_index(w: nat, x: nat, y: nat, ch: nat)
    requires
        x < w,
        ch < 3,
    ensures
        ((y * w + x) * 3 + ch) / 3 == y * w + x,
        ((y * w + x) * 3 + ch) % 3 == ch,
        (y * w + x) as int / (w as int) == y,
        (y * w + x) as int % (w as int) == x,
{
    let p = (y * w + x) as int;
    lemma_fundamental_div_mod_converse(p * 3 + ch, 3, p, ch as int);
    lemma_fundamental_div_mod_converse(p, w as int, y as int, x as int);
}

/// Interprets a decoded frame as a raster of the frame's own size, row by
/// row at the reported stride.  A buffer that cannot hold `height` rows is
/// refused; a pixel whose bytes lie past the end of an otherwise large
/// enough buffer degrades to black instead of failing the frame.
pub fn frame_to_raster(frame: &DecodedFrame) -> (r: Result<RasterImage, ThumbnailError>)
    ensures
        match r {
            Ok(img) => {
                &&& img.wf()
                &&& img.width == frame.width
                &&& img.height == frame.height
                &&& img.data@ == converted_pixels(
                    frame.data@,
                    frame.stride as nat,
                    frame.width as nat,
                    frame.height as nat,
                )
                &&& frame.data@.len() >= frame.height * frame.stride
            },
            Err(e) => {
                &&& e matches ThumbnailError::MemoryError(_)
                &&& frame.data@.len() < frame.height * frame.stride
            },
        },
{
    let n = frame.data.len();
    let undersized = match (frame.height as usize).checked_mul(frame.stride) {
        Some(expected) => n < expected,
        None => true,
    };
    if undersized {
        return Err(
            ThumbnailError::MemoryError(
                String::from_str("frame buffer is smaller than its declared row count"),
            ),
        );
    }
    let w = frame.width;
    let h = frame.height;
    let ghost target = converted_pixels(
        frame.data@,
        frame.stride as nat,
        w as nat,
        h as nat,
    );
    let mut out: Vec<u8> = Vec::new();
    let mut y: u32 = 0;
    while y < h
        invariant
            y <= h,
            n == frame.data@.len(),
            out@.len() == y * w * 3,
            target.len() == w * h * 3,
            target == converted_pixels(frame.data@, frame.stride as nat, w as nat, h as nat),
            forall|k: int| 0 <= k < out@.len() ==> out@[k] == target[k],
        decreases h - y,
    {
        let mut x: u32 = 0;
        proof {
            assert(y * w * 3 + 0 * 3 == (y * w + 0) * 3);
        }
        while x < w
            invariant
                x <= w,
                y < h,
                n == frame.data@.len(),
                out@.len() == (y * w + x) * 3,
                target.len() == w * h * 3,
                target == converted_pixels(frame.data@, frame.stride as nat, w as nat, h as nat),
                forall|k: int| 0 <= k < out@.len() ==> out@[k] == target[k],
            decreases w - x,
        {
            let off_opt = match (y as usize).checked_mul(frame.stride) {
                Some(row) => match (x as usize).checked_mul(3) {
                    Some(col) => row.checked_add(col),
                    None => None,
                },
                None => None,
            };
            let within = match off_opt {
                Some(off) => match off.checked_add(2) {
                    Some(last) => last < n,
                    None => false,
                },
                None => false,
            };
            let ghost base = ((y * w + x) * 3) as int;
            let ghost prev = out@;
            proof {
                assert(within == (y * frame.stride + x * 3 + 2 < frame.data@.len()));
                assert(base + 2 < w * h * 3) by (nonlinear_arith)
                    requires
                        base == (y * w + x) * 3,
                        x < w,
                        y < h,
                ;
                lemma_flat_index(w as nat, x as nat, y as nat, 0);
                lemma_flat_index(w as nat, x as nat, y as nat, 1);
                lemma_flat_index(w as nat, x as nat, y as nat, 2);
            }
            if within {
                let off = y as usize * frame.stride + x as usize * 3;
                out.push(frame.data[off]);
                out.push(frame.data[off + 1]);
                out.push(frame.data[off + 2]);
            } else {
                out.push(0);
                out.push(0);
                out.push(0);
            }
            proof {
                assert(out@.len() == base + 3);
                assert(forall|k: int| 0 <= k < prev.len() ==> out@[k] == prev[k]);
                assert(out@[base] == target[base]);
                assert(out@[base + 1] == target[base + 1]);
                assert(out@[base + 2] == target[base + 2]);
                assert((y * w + x) * 3 + 3 == (y * w + (x + 1)) * 3) by (nonlinear_arith);
            }
            x = x + 1;
        }
        proof {
            assert((y * w + w) * 3 == ((y + 1) * w) * 3) by (nonlinear_arith);
        }
        y = y + 1;
    }
    proof {
        assert(h * w * 3 == w * h * 3) by (nonlinear_arith);
    }
    let img = RasterImage { data: out, width: w, height: h };
    proof {
        assert(img.data@ =~= target);
    }
    Ok(img)
}

/// Renders the deterministic `width`-by-`height` fallback gradient.
pub fn fallback_raster(width: u32, height: u32) -> (r: RasterImage)
    requires
        1 <= width,
        1 <= height,
    ensures
        r.wf(),
        r.width == width,
        r.height == height,
        r.data@ == gradient_pixels(width as nat, height as nat),
{
    let w = width;
    let h = height;
    let ghost target = gradient_pixels(w as nat, h as nat);
    let mut out: Vec<u8> = Vec::new();
    let mut y: u32 = 0;
    while y < h
        invariant
            y <= h,
            1 <= w,
            1 <= h,
            out@.len() == y * w * 3,
            target.len() == w * h * 3,
            target == gradient_pixels(w as nat, h as nat),
            forall|k: int| 0 <= k < out@.len() ==> out@[k] == target[k],
        decreases h - y,
    {
        let mut x: u32 = 0;
        proof {
            assert(y * w * 3 + 0 * 3 == (y * w + 0) * 3);
        }
        while x < w
            invariant
                x <= w,
                y < h,
                1 <= w,
                1 <= h,
                out@.len() == (y * w + x) * 3,
                target.len() == w * h * 3,
                target == gradient_pixels(w as nat, h as nat),
                forall|k: int| 0 <= k < out@.len() ==> out@[k] == target[k],
            decreases w - x,
        {
            let ghost base = ((y * w + x) * 3) as int;
            let ghost prev = out@;
            proof {
                assert(x * 255 < w * 255) by (nonlinear_arith)
                    requires
                        x < w,
                ;
                lemma_multiply_divide_lt((x * 255) as int, w as int, 255);
                assert(y * 255 < h * 255) by (nonlinear_arith)
                    requires
                        y < h,
                ;
                lemma_multiply_divide_lt((y * 255) as int, h as int, 255);
                assert(base + 2 < w * h * 3) by (nonlinear_arith)
                    requires
                        base == (y * w + x) * 3,
                        x < w,
                        y < h,
                ;
                lemma_flat_index(w as nat, x as nat, y as nat, 0);
                lemma_flat_index(w as nat, x as nat, y as nat, 1);
                lemma_flat_index(w as nat, x as nat, y as nat, 2);
            }
            let red = ((x as u64 * 255) / w as u64) as u8;
            let green = ((y as u64 * 255) / h as u64) as u8;
            out.push(red);
            out.push(green);
            out.push(128);
            proof {
                assert(out@.len() == base + 3);
                assert(forall|k: int| 0 <= k < prev.len() ==> out@[k] == prev[k]);
                assert(out@[base] == target[base]);
                assert(out@[base + 1] == target[base + 1]);
                assert(out@[base + 2] == target[base + 2]);
                assert((y * w + x) * 3 + 3 == (y * w + (x + 1)) * 3) by (nonlinear_arith);
            }
            x = x + 1;
        }
        proof {
            assert((y * w + w) * 3 == ((y + 1) * w) * 3) by (nonlinear_arith);
        }
        y = y + 1;
    }
    proof {
        assert(h * w * 3 == w * h * 3) by (nonlinear_arith);
    }
    let img = RasterImage { data: out, width: w, height: h };
    proof {
        assert(img.data@ =~= target);
    }
    img
}

/// The JPEG stream that the image encoder produces for a packed RGB raster
/// of the given geometry at the given quality.  It depends on nothing but
/// these arguments.
pub uninterp spec fn jpeg_encoding(
    pixels: Seq<u8>,
    width: nat,
    height: nat,
    quality: u8,
) -> Seq<u8>;

/// Relies on `image::codecs::jpeg::JpegEncoder`: `new_with_quality` accepts a
/// quality from 1 to 100, and `encode` deterministically encodes a packed
/// RGB8 buffer of a 1..=65535 by 1..=65535 geometry, writing the stream into
/// the given sink.  On the inputs admitted here the call succeeds: the
/// buffer length matches the geometry exactly (the only panic), the
/// geometry is within the format's bounds (the only encode error for RGB8),
/// no ICC or EXIF segment is set on this construction path, and writing
/// into a `Vec` never fails.
#[verifier::external_body]
fn encode_jpeg_rgb(pixels: &Vec<u8>, width: u32, height: u32, quality: u8) -> (r: Result<
    Vec<u8>,
    String,
>)
    requires
        pixels@.len() == width * height * 3,
        1 <= width <= 65535,
        1 <= height <= 65535,
        1 <= quality <= 100,
    ensures
        r is Ok,
        r matches Ok(b) ==> b@ == jpeg_encoding(pixels@, width as nat, height as nat, quality),
{
    let mut out: Vec<u8> = Vec::new();
    let mut encoder = image::codecs::jpeg::JpegEncoder::new_with_quality(&mut out, quality);
    match encoder.encode(pixels.as_slice(), width, height, image::ExtendedColorType::Rgb8) {
        Ok(()) => Ok(out),
        Err(e) => Err(e.to_string()),
    }
}

/// Encodes a raster as a JPEG stream at the given quality.  Encoding into
/// memory is owed to succeed on every admitted raster; the `Result` shape
/// is kept because writing the stream out, which the caller does next, can
/// still fail.
pub fn encode_raster(img: &RasterImage, quality: u8) -> (r: Result<Vec<u8>, ThumbnailError>)
    requires
        img.wf(),
        1 <= img.width <= 65535,
        1 <= img.height <= 65535,
        1 <= quality <= 100,
    ensures
        r matches Ok(b) && b@ == jpeg_encoding(
            img.data@,
            img.width as nat,
            img.height as nat,
            quality,
        ),
{
    match encode_jpeg_rgb(&img.data, img.width, img.height, quality) {
        Ok(b) => Ok(b),
        Err(detail) => Err(ThumbnailError::ImageSaveError(detail)),
    }
}

} // verus!
