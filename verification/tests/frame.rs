use ppm4u::frame::FrameBuilder;
use ppm4u::ppm::{DecodedImage, image_or_fallback};

#[test]
fn build_two_by_one() {
    let img = DecodedImage { width: 2, height: 1, pixels: vec![10, 20, 30, 40, 50, 60] };
    let buf = FrameBuilder::build(&img);
    assert_eq!(buf.width, 2);
    assert_eq!(buf.height, 1);
    assert_eq!(buf.pixels, vec![10, 20, 30, 255, 40, 50, 60, 255]);
}

#[test]
fn build_pads_missing_bytes_with_zero() {
    let img = DecodedImage { width: 2, height: 1, pixels: vec![10, 20] };
    let buf = FrameBuilder::build(&img);
    assert_eq!(buf.pixels, vec![10, 20, 0, 255, 0, 0, 0, 255]);
}

#[test]
fn build_reads_only_what_the_image_covers() {
    let img = DecodedImage { width: 1, height: 1, pixels: vec![1, 2, 3, 4, 5] };
    let buf = FrameBuilder::build(&img);
    assert_eq!(buf.pixels, vec![1, 2, 3, 255]);
}

#[test]
fn build_zero_size() {
    let img = DecodedImage { width: 0, height: 5, pixels: vec![] };
    let buf = FrameBuilder::build(&img);
    assert_eq!(buf.width, 0);
    assert_eq!(buf.height, 5);
    assert!(buf.pixels.is_empty());
}

#[test]
fn fallback_render_is_opaque_black() {
    let img = image_or_fallback(None);
    let buf = FrameBuilder::build(&img);
    assert_eq!(buf.width, 64);
    assert_eq!(buf.height, 64);
    assert_eq!(buf.pixels.len(), 64 * 64 * 4);
    for (j, &b) in buf.pixels.iter().enumerate() {
        if j % 4 == 3 {
            assert_eq!(b, 255);
        } else {
            assert_eq!(b, 0);
        }
    }
}
