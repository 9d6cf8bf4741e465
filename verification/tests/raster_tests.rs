use video_thumbs::errors::ThumbnailError;
use video_thumbs::raster::{fallback_raster, frame_to_raster, DecodedFrame};
use video_thumbs::thumbnail::{AsyncThumbnailGenerator, ThumbnailConfig};

#[test]
fn a_packed_frame_converts_byte_for_byte() {
    let data: Vec<u8> = (0..12).collect();
    let frame = DecodedFrame {
        data,
        width: 2,
        height: 2,
        stride: 6,
    };
    let img = frame_to_raster(&frame).unwrap();
    assert_eq!(img.width, 2);
    assert_eq!(img.height, 2);
    assert_eq!(img.data, (0..12).collect::<Vec<u8>>());
    assert_eq!(img.pixel(1, 0), (3, 4, 5));
    assert_eq!(img.pixel(0, 1), (6, 7, 8));
}

#[test]
fn decoder_padding_between_rows_is_skipped() {
    // rows of 2 pixels padded to a stride of 8 bytes
    let mut data: Vec<u8> = Vec::new();
    for row in 0..2u8 {
        for b in 0..6u8 {
            data.push(10 * row + b);
        }
        data.push(0xEE);
        data.push(0xEE);
    }
    let frame = DecodedFrame {
        data,
        width: 2,
        height: 2,
        stride: 8,
    };
    let img = frame_to_raster(&frame).unwrap();
    assert_eq!(img.pixel(0, 0), (0, 1, 2));
    assert_eq!(img.pixel(1, 0), (3, 4, 5));
    assert_eq!(img.pixel(0, 1), (10, 11, 12));
    assert_eq!(img.pixel(1, 1), (13, 14, 15));
}

#[test]
fn an_undersized_buffer_is_refused_as_memory_error() {
    let frame = DecodedFrame {
        data: vec![0; 11],
        width: 2,
        height: 2,
        stride: 6,
    };
    match frame_to_raster(&frame) {
        Err(ThumbnailError::MemoryError(_)) => {}
        other => panic!("expected MemoryError, got {:?}", other),
    }
}

#[test]
fn a_pixel_past_the_buffer_end_degrades_to_black() {
    // the stride says 2 pixels per row, but the frame claims 4 columns:
    // the last columns of the last row lie past the end of the buffer
    let frame = DecodedFrame {
        data: (100..112).collect(),
        width: 4,
        height: 2,
        stride: 6,
    };
    let img = frame_to_raster(&frame).unwrap();
    // within the buffer the bytes are read at the stride
    assert_eq!(img.pixel(0, 0), (100, 101, 102));
    assert_eq!(img.pixel(1, 0), (103, 104, 105));
    assert_eq!(img.pixel(2, 0), (106, 107, 108));
    assert_eq!(img.pixel(0, 1), (106, 107, 108));
    // past the end: black, not a crash and not a failed frame
    assert_eq!(img.pixel(3, 1), (0, 0, 0));
}

#[test]
fn the_fallback_gradient_has_the_documented_formula() {
    let img = fallback_raster(4, 2);
    assert_eq!(img.width, 4);
    assert_eq!(img.height, 2);
    for y in 0..2u32 {
        for x in 0..4u32 {
            let expected = (
                (x * 255 / 4) as u8,
                (y * 255 / 2) as u8,
                128,
            );
            assert_eq!(img.pixel(x, y), expected);
        }
    }
}

#[test]
fn the_encoded_fallback_decodes_to_exactly_the_configured_size() {
    // the default geometry, and an odd one, both come back pixel-exact
    for (w, h) in [(320u32, 180u32), (33, 77)] {
        let mut config = ThumbnailConfig::default();
        config.width = w;
        config.height = h;
        let generator = AsyncThumbnailGenerator::new(config);
        let bytes = generator.generate_fallback_thumbnail().unwrap();
        let decoded = image::load_from_memory(&bytes).unwrap();
        assert_eq!(decoded.width(), w);
        assert_eq!(decoded.height(), h);
    }
}

#[test]
fn the_decoded_fallback_shows_the_gradient_signature() {
    let generator = AsyncThumbnailGenerator::new(ThumbnailConfig::default());
    let bytes = generator.generate_fallback_thumbnail().unwrap();
    let decoded = image::load_from_memory(&bytes).unwrap().to_rgb8();
    let mid_y = decoded.height() / 2;
    let left = decoded.get_pixel(2, mid_y);
    let right = decoded.get_pixel(decoded.width() - 3, mid_y);
    // red rises strongly from the left edge to the right edge
    assert!(left.0[0] < 60, "left red was {}", left.0[0]);
    assert!(right.0[0] > 180, "right red was {}", right.0[0]);
    let top = decoded.get_pixel(decoded.width() / 2, 1);
    let bottom = decoded.get_pixel(decoded.width() / 2, decoded.height() - 2);
    // green rises from the top edge to the bottom edge
    assert!(bottom.0[1] > top.0[1]);
}

#[test]
fn a_real_frame_does_not_show_the_gradient_signature() {
    // a frame standing in for a decoded video frame: bright everywhere,
    // including the left edge, unlike the fallback gradient
    let width = 320u32;
    let height = 180u32;
    let stride = (width * 3) as usize;
    let mut data: Vec<u8> = Vec::with_capacity(stride * height as usize);
    for _y in 0..height {
        for _x in 0..width {
            data.push(200);
            data.push(50);
            data.push(50);
        }
    }
    let frame = DecodedFrame {
        data,
        width,
        height,
        stride,
    };
    let bytes = AsyncThumbnailGenerator::save_rgb_frame_safely(&frame, 85).unwrap();
    let decoded = image::load_from_memory(&bytes).unwrap().to_rgb8();
    assert_eq!(decoded.width(), width);
    assert_eq!(decoded.height(), height);
    let left = decoded.get_pixel(2, height / 2);
    // the fallback gradient would be nearly black here; this frame is not
    assert!(left.0[0] > 120, "left red was {}", left.0[0]);
}

#[test]
fn save_rgb_frame_safely_refuses_an_undersized_buffer() {
    let frame = DecodedFrame {
        data: vec![0; 10],
        width: 320,
        height: 180,
        stride: 960,
    };
    match AsyncThumbnailGenerator::save_rgb_frame_safely(&frame, 85) {
        Err(ThumbnailError::MemoryError(_)) => {}
        other => panic!("expected MemoryError, got {:?}", other),
    }
}
