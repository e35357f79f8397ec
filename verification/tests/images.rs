use bell::images::{
    create_128x128_image_data, create_16x16_image_data, create_240x240_image_data,
    create_24x24_image_data,
};

#[test]
fn test_images_have_consistent_geometry() {
    for (img, side, alpha) in [
        (create_16x16_image_data(), 16, false),
        (create_24x24_image_data(), 24, true),
        (create_128x128_image_data(), 128, false),
        (create_240x240_image_data(), 240, true),
    ] {
        let channels = if alpha { 4 } else { 3 };
        assert_eq!(img.width, side);
        assert_eq!(img.height, side);
        assert_eq!(img.has_alpha, alpha);
        assert_eq!(img.channels, channels);
        assert_eq!(img.bits_per_sample, channels);
        assert_eq!(img.rowstride, side * channels);
        assert_eq!(img.data.len(), (side * side * channels) as usize);
    }
}

#[test]
fn opaque_16_starts_red_green_blue() {
    let img = create_16x16_image_data();
    assert_eq!(&img.data[0..9], &[0xFF, 0x00, 0x00, 0x00, 0xFF, 0x00, 0x00, 0x00, 0xFF]);
}
