use car_dashboard::tile_image::{decode_image_bytes, is_success, tile_from_response, TileError};

fn png_bytes(width: u32, height: u32) -> Vec<u8> {
    let img = image::RgbaImage::from_pixel(width, height, image::Rgba([10, 20, 30, 255]));
    let mut out = std::io::Cursor::new(Vec::new());
    image::DynamicImage::ImageRgba8(img).write_to(&mut out, image::ImageFormat::Png).unwrap();
    out.into_inner()
}

#[test]
fn success_statuses() {
    assert!(is_success(200));
    assert!(is_success(204));
    assert!(is_success(299));
    assert!(!is_success(199));
    assert!(!is_success(300));
    assert!(!is_success(404));
}

#[test]
fn failed_reply_is_refused_with_its_status() {
    match tile_from_response(404, &png_bytes(4, 4)) {
        Err(TileError::HttpStatus(s)) => assert_eq!(s, 404),
        _ => panic!("expected an HTTP status error"),
    }
}

#[test]
fn garbage_is_refused_by_the_decoder() {
    match tile_from_response(200, b"not an image") {
        Err(TileError::Decode(msg)) => assert!(!msg.is_empty()),
        _ => panic!("expected a decode error"),
    }
}

#[test]
fn square_image_is_scaled_to_a_tile() {
    match tile_from_response(200, &png_bytes(4, 4)) {
        Ok(p) => {
            assert_eq!((p.width, p.height), (256, 256));
            assert_eq!(p.rgba.len(), 256 * 256 * 4);
            assert_eq!(&p.rgba[0..4], &[10, 20, 30, 255]);
        }
        _ => panic!("expected pixels"),
    }
}

#[test]
fn tile_sized_image_keeps_its_pixels() {
    match tile_from_response(200, &png_bytes(256, 256)) {
        Ok(p) => {
            assert_eq!((p.width, p.height), (256, 256));
            assert_eq!(p.rgba.len(), 256 * 256 * 4);
        }
        _ => panic!("expected pixels"),
    }
}

#[test]
fn wide_image_keeps_its_aspect_ratio() {
    match tile_from_response(200, &png_bytes(8, 4)) {
        Ok(p) => {
            assert_eq!((p.width, p.height), (256, 128));
            assert_eq!(p.rgba.len(), (p.width * p.height * 4) as usize);
        }
        _ => panic!("expected pixels"),
    }
}

#[test]
fn tall_image_keeps_its_aspect_ratio() {
    match tile_from_response(200, &png_bytes(3, 12)) {
        Ok(p) => {
            assert_eq!((p.width, p.height), (64, 256));
            assert_eq!(p.rgba.len(), 64 * 256 * 4);
        }
        _ => panic!("expected pixels"),
    }
}

#[test]
fn large_image_is_scaled_down() {
    match tile_from_response(200, &png_bytes(512, 512)) {
        Ok(p) => {
            assert_eq!((p.width, p.height), (256, 256));
            assert_eq!(&p.rgba[0..4], &[10, 20, 30, 255]);
        }
        _ => panic!("expected pixels"),
    }
}

#[test]
fn image_file_decodes_to_its_pixel_bytes() {
    let bytes = decode_image_bytes(&png_bytes(2, 3)).unwrap();
    assert_eq!(bytes.len(), 2 * 3 * 4);
    assert_eq!(&bytes[0..4], &[10, 20, 30, 255]);
    assert_eq!(&bytes[20..24], &[10, 20, 30, 255]);
}

#[test]
fn image_file_that_does_not_decode_gives_the_decoder_message() {
    match decode_image_bytes(b"GIF89a but not really") {
        Err(message) => assert!(!message.is_empty()),
        Ok(_) => panic!("expected a decode error"),
    }
}
