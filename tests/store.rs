use image::AnimationDecoder;
use imgcache::{color_image_to_rgba, ColorImage, Error, ImageFrame, MediaCache};

fn image(w: usize, h: usize, seed: u8) -> ColorImage {
    let pixels = (0..w * h)
        .map(|i| {
            let v = (i as u8).wrapping_mul(37).wrapping_add(seed);
            [v, v.wrapping_add(1), v.wrapping_add(2), 255 - (i as u8 % 3)]
        })
        .collect();
    ColorImage { size: [w, h], pixels }
}

fn solid(w: usize, h: usize, px: [u8; 4]) -> ColorImage {
    ColorImage { size: [w, h], pixels: vec![px; w * h] }
}

#[test]
fn rgba_bytes_are_laid_out_per_pixel() {
    let img = ColorImage { size: [2, 1], pixels: vec![[1, 2, 3, 4], [5, 6, 7, 8]] };
    assert_eq!(color_image_to_rgba(&img), vec![1, 2, 3, 4, 5, 6, 7, 8]);
}

#[test]
fn still_round_trip() {
    let img = image(5, 3, 9);
    let file = MediaCache::write("https://example.com/a.png", &img).unwrap();
    assert_eq!(file.key, MediaCache::key("https://example.com/a.png"));
    let decoded = image::load_from_memory(&file.bytes).unwrap().to_rgba8();
    assert_eq!(decoded.width(), 5);
    assert_eq!(decoded.height(), 3);
    assert_eq!(decoded.into_raw(), color_image_to_rgba(&img));
}

#[test]
fn still_bytes_are_webp() {
    let file = MediaCache::write("u", &image(2, 2, 1)).unwrap();
    assert_eq!(&file.bytes[0..4], b"RIFF");
    assert_eq!(&file.bytes[8..12], b"WEBP");
}

#[test]
fn still_with_wrong_pixel_count_is_refused() {
    let img = ColorImage { size: [3, 3], pixels: vec![[0, 0, 0, 255]; 8] };
    assert!(matches!(MediaCache::write("u", &img), Err(Error::ImageSize)));
}

#[test]
fn still_with_overflowing_size_is_refused() {
    let img = ColorImage { size: [usize::MAX, 2], pixels: vec![] };
    assert!(matches!(MediaCache::write("u", &img), Err(Error::ImageSize)));
}

#[test]
fn gif_frames_keep_order_and_delays() {
    let frames = vec![
        ImageFrame { delay_ms: 100, image: image(2, 2, 1) },
        ImageFrame { delay_ms: 200, image: image(2, 2, 2) },
        ImageFrame { delay_ms: 50, image: image(2, 2, 3) },
    ];
    let expected: Vec<Vec<u8>> = frames.iter().map(|f| color_image_to_rgba(&f.image)).collect();
    let file = MediaCache::write_gif("https://example.com/x.gif", frames);
    assert_eq!(file.key, MediaCache::key("https://example.com/x.gif"));
    assert_eq!(file.frames.len(), 3);
    let delays: Vec<u64> = file.frames.iter().map(|f| f.delay_ms).collect();
    assert_eq!(delays, vec![100, 200, 50]);
    for (f, px) in file.frames.iter().zip(expected.iter()) {
        assert_eq!((f.width, f.height), (2, 2));
        assert_eq!(&f.rgba, px);
    }
}

#[test]
fn gif_skips_inconsistent_frames() {
    let frames = vec![
        ImageFrame { delay_ms: 10, image: image(2, 2, 1) },
        ImageFrame { delay_ms: 20, image: ColorImage { size: [2, 2], pixels: vec![[0; 4]; 3] } },
        ImageFrame { delay_ms: 30, image: solid(70000, 0, [0; 4]) },
        ImageFrame { delay_ms: 40, image: image(1, 1, 4) },
    ];
    let file = MediaCache::write_gif("u", frames);
    let delays: Vec<u64> = file.frames.iter().map(|f| f.delay_ms).collect();
    assert_eq!(delays, vec![10, 40]);
}

#[test]
fn gif_round_trip() {
    let colors = [[255, 0, 0, 255], [0, 255, 0, 255], [0, 0, 255, 255]];
    let delays = [100u64, 200, 50];
    let frames: Vec<ImageFrame> = colors
        .iter()
        .zip(delays.iter())
        .map(|(c, d)| ImageFrame { delay_ms: *d, image: solid(4, 3, *c) })
        .collect();
    let file = MediaCache::write_gif("https://example.com/anim.gif", frames);

    let mut bytes = Vec::new();
    {
        let mut enc = image::codecs::gif::GifEncoder::new(&mut bytes);
        for f in &file.frames {
            let buf = image::RgbaImage::from_raw(f.width, f.height, f.rgba.clone()).unwrap();
            let delay = image::Delay::from_saturating_duration(std::time::Duration::from_millis(f.delay_ms));
            enc.encode_frame(image::Frame::from_parts(buf, 0, 0, delay)).unwrap();
        }
    }

    let dec = image::codecs::gif::GifDecoder::new(std::io::Cursor::new(bytes)).unwrap();
    let out = dec.into_frames().collect_frames().unwrap();
    assert_eq!(out.len(), 3);
    for (i, f) in out.iter().enumerate() {
        let (n, d) = f.delay().numer_denom_ms();
        assert_eq!((n / d) as u64, delays[i]);
        assert_eq!(f.buffer().dimensions(), (4, 3));
        assert!(f.buffer().pixels().all(|p| p.0 == colors[i]));
    }
}

#[test]
fn still_with_zero_side_is_refused_by_encoder() {
    let img = ColorImage { size: [0, 0], pixels: vec![] };
    assert!(matches!(MediaCache::write("u", &img), Err(Error::Image(_))));
}

#[test]
fn still_wider_than_webp_allows_is_refused_by_encoder() {
    let img = solid(16385, 1, [1, 2, 3, 255]);
    assert!(matches!(MediaCache::write("u", &img), Err(Error::Image(_))));
}

#[test]
fn still_at_largest_webp_side_is_encoded() {
    let img = solid(16384, 1, [1, 2, 3, 255]);
    assert!(MediaCache::write("u", &img).is_ok());
}
