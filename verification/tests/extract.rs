use image::codecs::gif::GifEncoder;
use image::{Delay, Frame, Rgba, RgbaImage as Buf};
use tinct::color::Argb;
use tinct::extract::{decode_pixels, image_pixels, scheme_pixels, optimal_size, quantizer_input, seed_color, ExtractOptions, RgbaImage};

#[test]
fn optimal_size_matches_python() {
    assert_eq!(optimal_size(1920, 1080, 128), (171, 96));
    assert_eq!(optimal_size(100, 50, 128), (100, 50)); // no upscale
    assert_eq!(optimal_size(10000, 10, 128), (4048, 4));
}

#[test]
fn optimal_size_edges() {
    assert_eq!(optimal_size(0, 0, 128), (1, 1));
    assert_eq!(optimal_size(128, 128, 128), (128, 128));
    assert_eq!(optimal_size(256, 256, 128), (128, 128));
    assert_eq!(optimal_size(u32::MAX, 1, 1), (65536, 1));
}

#[test]
fn default_options() {
    let o = ExtractOptions::default();
    assert_eq!((o.bitmap_size, o.max_colors), (128, 128));
}

#[test]
fn quantizer_drops_translucent_pixels() {
    let px = [(1, 2, 3, 255), (4, 5, 6, 0), (7, 8, 9, 255)];
    assert_eq!(
        quantizer_input(&px),
        vec![Argb::new(255, 1, 2, 3), Argb::new(255, 7, 8, 9)]
    );
}

#[test]
fn quantizer_keeps_all_when_none_opaque() {
    let px = [(1, 2, 3, 10), (4, 5, 6, 0)];
    assert_eq!(
        quantizer_input(&px),
        vec![Argb::new(255, 1, 2, 3), Argb::new(255, 4, 5, 6)]
    );
    assert!(quantizer_input(&[]).is_empty());
}

#[test]
fn gray_pixels_fall_back_to_blue_seed() {
    let px = vec![Argb::new(255, 128, 128, 128); 64];
    assert_eq!(seed_color(&px, 128), Argb::new(255, 66, 133, 244));
}

#[test]
fn saturated_pixels_seed_their_hue() {
    let px = vec![Argb::new(255, 220, 20, 60); 64];
    let s = seed_color(&px, 128);
    assert!(s.red > 150 && s.green < 80 && s.blue < 120);
}

#[test]
fn undecodable_bytes_are_an_error() {
    assert!(decode_pixels(b"definitely not an image", &ExtractOptions::default()).is_err());
}

#[test]
fn png_bytes_decode_to_opaque_pixels() {
    let mut img = image::RgbaImage::new(2, 1);
    img.put_pixel(0, 0, image::Rgba([10, 20, 30, 255]));
    img.put_pixel(1, 0, image::Rgba([40, 50, 60, 0]));
    let mut bytes: Vec<u8> = Vec::new();
    image::DynamicImage::ImageRgba8(img)
        .write_to(&mut std::io::Cursor::new(&mut bytes), image::ImageFormat::Png)
        .unwrap();
    let px = decode_pixels(&bytes, &ExtractOptions::default()).unwrap();
    assert_eq!(px, vec![Argb::new(255, 10, 20, 30)]);
}

#[test]
fn gif_uses_second_frame() {
    let red = Buf::from_pixel(2, 2, Rgba([255, 0, 0, 255]));
    let blue = Buf::from_pixel(2, 2, Rgba([0, 0, 255, 255]));
    let mut bytes: Vec<u8> = Vec::new();
    {
        let mut enc = GifEncoder::new(&mut bytes);
        enc.encode_frames(vec![
            Frame::from_parts(red, 0, 0, Delay::from_numer_denom_ms(100, 1)),
            Frame::from_parts(blue, 0, 0, Delay::from_numer_denom_ms(100, 1)),
        ])
        .unwrap();
    }
    let px = decode_pixels(&bytes, &ExtractOptions::default()).unwrap();
    assert_eq!(px, vec![Argb::new(255, 0, 0, 255); 4]);
}

#[test]
fn image_pixels_downscales_large_images() {
    let img = RgbaImage { width: 256, height: 256, pixels: vec![(10, 20, 30, 255); 256 * 256] };
    let px = image_pixels(&img, &ExtractOptions::default());
    assert_eq!(px.len(), 128 * 128);
    assert!(px.iter().all(|c| *c == Argb::new(255, 10, 20, 30)));
    let small = RgbaImage { width: 2, height: 1, pixels: vec![(1, 2, 3, 255), (4, 5, 6, 7)] };
    assert_eq!(image_pixels(&small, &ExtractOptions::default()), vec![Argb::new(255, 1, 2, 3)]);
}

#[test]
fn scheme_pixels_fit_within_128() {
    let img = Buf::from_pixel(256, 128, Rgba([200, 100, 50, 255]));
    let mut bytes: Vec<u8> = Vec::new();
    image::DynamicImage::ImageRgba8(img)
        .write_to(&mut std::io::Cursor::new(&mut bytes), image::ImageFormat::Png)
        .unwrap();
    let px = scheme_pixels(&bytes).unwrap();
    assert_eq!(px.len(), 128 * 64);
    assert!(px.iter().all(|p| *p == (200, 100, 50)));
    assert!(scheme_pixels(b"nope").is_err());
}

#[test]
fn large_png_is_downscaled_before_quantizing() {
    let img = image::ImageBuffer::<Rgba<u16>, Vec<u16>>::from_pixel(300, 300, Rgba([65535, 0, 32896, 65535]));
    let mut bytes: Vec<u8> = Vec::new();
    image::DynamicImage::ImageRgba16(img)
        .write_to(&mut std::io::Cursor::new(&mut bytes), image::ImageFormat::Png)
        .unwrap();
    let px = decode_pixels(&bytes, &ExtractOptions::default()).unwrap();
    assert_eq!(px.len(), 128 * 128);
    assert!(px.iter().all(|c| c.red == 255 && c.green == 0 && c.blue == 128));
}
