use window_switcher::frame::{bgra_to_rgba, render_thumbnail};

#[test]
fn bgra_rows_become_packed_rgba() {
    let raw: Vec<u8> = vec![
        1, 2, 3, 4, 5, 6, 7, 8, 99, 99, //
        9, 10, 11, 12, 13, 14, 15, 16, 99, 99,
    ];
    let rgba = bgra_to_rgba(&raw, 2, 2, 10).unwrap();
    assert_eq!(rgba, vec![3, 2, 1, 4, 7, 6, 5, 8, 11, 10, 9, 12, 15, 14, 13, 16]);
}

#[test]
fn short_frame_buffers_are_rejected() {
    let raw: Vec<u8> = vec![0; 12];
    let error = bgra_to_rgba(&raw, 2, 2, 8).unwrap_err();
    assert_eq!(error, "Frame buffer ended unexpectedly.");
    let error = render_thumbnail(&raw, 2, 2, 8, 1, 1).unwrap_err();
    assert_eq!(error, "Frame buffer ended unexpectedly.");
    assert_eq!(bgra_to_rgba(&[], 3, 0, 12).unwrap(), Vec::<u8>::new());
}

#[test]
fn thumbnails_are_png_encoded() {
    let raw: Vec<u8> = (0..(4 * 4 * 4)).map(|i| i as u8).collect();
    let png = render_thumbnail(&raw, 4, 4, 16, 2, 2).unwrap();
    assert_eq!(&png[..8], &[0x89, b'P', b'N', b'G', 0x0d, 0x0a, 0x1a, 0x0a]);
    let same = render_thumbnail(&raw, 4, 4, 16, 2, 2).unwrap();
    assert_eq!(png, same);
    let other = render_thumbnail(&raw, 4, 4, 16, 4, 4).unwrap();
    assert_ne!(png, other);
}

#[test]
fn thumbnails_decode_to_the_target_size_with_rgba_colors() {
    let mut raw: Vec<u8> = Vec::new();
    for _ in 0..(6 * 4) {
        raw.extend_from_slice(&[10, 20, 30, 255]);
    }
    let png = render_thumbnail(&raw, 6, 4, 24, 3, 2).unwrap();
    let decoded = image::load_from_memory(&png).unwrap().to_rgba8();
    assert_eq!(decoded.dimensions(), (3, 2));
    for pixel in decoded.pixels() {
        assert_eq!(pixel.0, [30, 20, 10, 255]);
    }
}

#[test]
fn zero_sized_targets_fail_to_encode() {
    let raw: Vec<u8> = vec![7; 4 * 2 * 2];
    let error = render_thumbnail(&raw, 2, 2, 8, 0, 2).unwrap_err();
    assert!(error.starts_with("Failed to encode PNG: "));
    let error = render_thumbnail(&raw, 2, 2, 8, 2, 0).unwrap_err();
    assert!(error.starts_with("Failed to encode PNG: "));
    assert!(render_thumbnail(&raw, 2, 2, 8, 1, 1).is_ok());
    assert!(render_thumbnail(&[], 0, 0, 0, 1, 1).is_ok());
}
