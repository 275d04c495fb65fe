use std::io::Cursor;

use image_hosting_worker::geometry::{crop_offsets, resize_dimensions, CLIP_SIDE};
use image_hosting_worker::image_data::{
    decode_and_preprocess, preprocess_image, RgbImage, ToNdarray3,
};

#[test]
fn shortest_side_resize_dimensions() {
    assert_eq!(CLIP_SIDE, 224);
    // Portrait: width is the short side.
    assert_eq!(resize_dimensions(448, 896), Some((224, 448)));
    // Landscape: height is the short side; 224 * 640 / 480 rounds down.
    assert_eq!(resize_dimensions(640, 480), Some((298, 224)));
    assert_eq!(resize_dimensions(300, 240), Some((280, 224)));
    // Degenerate sides.
    assert_eq!(resize_dimensions(0, 100), None);
    assert_eq!(resize_dimensions(100, 0), None);
}

#[test]
fn short_side_at_target_is_identity() {
    // Shorter side exactly at the target: the resize keeps the dimensions.
    assert_eq!(resize_dimensions(224, 500), Some((224, 500)));
    assert_eq!(resize_dimensions(731, 224), Some((731, 224)));
    assert_eq!(resize_dimensions(224, 224), Some((224, 224)));
    // Shorter side above the target: the resize path is taken.
    assert_eq!(resize_dimensions(225, 500), Some((224, 497)));
}

#[test]
fn centered_crop_offsets() {
    assert_eq!(crop_offsets(298, 224), (37, 0));
    assert_eq!(crop_offsets(224, 448), (0, 112));
    // Halves round up, as round() does on the exact midpoint.
    assert_eq!(crop_offsets(225, 301), (1, 39));
}

fn gradient_image(width: u32, height: u32) -> RgbImage {
    let mut pixels = Vec::new();
    for y in 0..height {
        for x in 0..width {
            for c in 0..3u32 {
                pixels.push(((x * 7 + y * 31 + c * 101) % 251) as u8);
            }
        }
    }
    RgbImage { width, height, pixels }
}

#[test]
fn crop_takes_the_window() {
    let img = gradient_image(4, 3);
    let win = img.crop(1, 2, 2, 1);
    assert_eq!(win.width, 2);
    assert_eq!(win.height, 1);
    let at = |x: u32, y: u32, c: u32| img.pixels[(((y * 4) + x) * 3 + c) as usize];
    assert_eq!(
        win.pixels,
        vec![at(1, 2, 0), at(1, 2, 1), at(1, 2, 2), at(2, 2, 0), at(2, 2, 1), at(2, 2, 2)]
    );
}

#[test]
fn channel_first_layout() {
    let img = gradient_image(2, 2);
    let source = img.pixels.clone();
    let at = move |x: u32, y: u32, c: u32| source[(((y * 2) + x) * 3 + c) as usize];
    let t = img.into_ndarray3();
    assert_eq!(t.width, 2);
    assert_eq!(t.height, 2);
    assert_eq!(
        t.data,
        vec![
            at(0, 0, 0),
            at(1, 0, 0),
            at(0, 1, 0),
            at(1, 1, 0),
            at(0, 0, 1),
            at(1, 0, 1),
            at(0, 1, 1),
            at(1, 1, 1),
            at(0, 0, 2),
            at(1, 0, 2),
            at(0, 1, 2),
            at(1, 1, 2),
        ]
    );
}

#[test]
fn malformed_buffer_converts_to_the_empty_tensor() {
    let bad = RgbImage { width: 2, height: 2, pixels: vec![0; 5] };
    let t = bad.into_ndarray3();
    assert_eq!((t.width, t.height), (0, 0));
    assert!(t.data.is_empty());
}

fn png_bytes(width: u32, height: u32, pixels: Vec<u8>) -> Vec<u8> {
    let buffer: image::RgbImage = image::ImageBuffer::from_raw(width, height, pixels).unwrap();
    let mut bytes = Cursor::new(Vec::new());
    buffer
        .write_to(&mut bytes, image::ImageFormat::Png)
        .unwrap();
    bytes.into_inner()
}

#[test]
fn decoding_recovers_the_pixels() {
    // A target-size PNG goes through decode, identity resize, identity
    // crop: the tensor is the channel-first form of the encoded pixels.
    let img = gradient_image(224, 224);
    let bytes = png_bytes(224, 224, img.pixels.clone());
    let t = decode_and_preprocess(&bytes).expect("a PNG decodes");
    assert_eq!(t.data, img.into_ndarray3().data);
}

#[test]
fn undecodable_bytes_are_rejected() {
    assert!(decode_and_preprocess(b"not an image").is_none());
}

#[test]
fn preprocessing_identical_bytes_yields_identical_tensors() {
    let src = gradient_image(240, 300);
    let again = gradient_image(240, 300);
    let t1 = preprocess_image(&src).expect("valid dimensions");
    let t2 = preprocess_image(&again).expect("valid dimensions");
    assert_eq!((t1.width, t1.height), (CLIP_SIDE, CLIP_SIDE));
    assert_eq!(t1.data.len(), 3 * 224 * 224);
    assert_eq!(t1.data, t2.data);
}

#[test]
fn resize_path_feeds_the_centered_crop() {
    // Top half red, bottom half blue, at twice the target scale: the
    // resize halves it and the centered crop spans the color boundary, so
    // the tensor is red at the top and blue at the bottom.
    let mut pixels = Vec::new();
    for y in 0..896u32 {
        for _x in 0..448u32 {
            if y < 448 {
                pixels.extend_from_slice(&[255, 0, 0]);
            } else {
                pixels.extend_from_slice(&[0, 0, 255]);
            }
        }
    }
    let img = RgbImage { width: 448, height: 896, pixels };
    let t = preprocess_image(&img).expect("valid dimensions");
    // Plane 0 is red, plane 2 is blue; entry (c, y, x) sits at
    // c * 224 * 224 + y * 224 + x.
    let at = |c: usize, y: usize, x: usize| t.data[c * 224 * 224 + y * 224 + x];
    assert_eq!((at(0, 0, 0), at(2, 0, 0)), (255, 0));
    assert_eq!((at(0, 223, 0), at(2, 223, 0)), (0, 255));
}

#[test]
fn preprocessing_a_square_of_target_size_keeps_the_pixels() {
    // Short side exactly at the target: identity resize, identity crop,
    // so the tensor is the channel-first rearrangement of the input.
    let src = gradient_image(224, 224);
    let t = preprocess_image(&src).expect("valid dimensions");
    let expected = gradient_image(224, 224).into_ndarray3();
    assert_eq!(t.data, expected.data);
}
