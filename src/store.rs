use vstd::prelude::*;

use crate::cache::{Error, MediaCache};
use crate::key::key_of_url;

verus! {

/// A decoded image: `size` is `[width, height]` and `pixels` holds one RGBA
/// value per pixel, row by row.
pub struct ColorImage {
    pub size: [usize; 2],
    pub pixels: Vec<[u8; 4]>,
}

impl ColorImage {
    /// The pixel count matches the declared size.
    pub open spec fn wf(&self) -> bool {
        self.pixels@.len() == self.size[0] * self.size[1]
    }
}

/// One decoded animation frame and how long it is shown, in milliseconds.
pub struct ImageFrame {
    pub delay_ms: u64,
    pub image: ColorImage,
}

/// A frame ready for the animation encoder: its dimensions, its RGBA8 bytes,
/// and its display time in milliseconds.
pub struct GifFrame {
    pub width: u32,
    pub height: u32,
    pub rgba: Vec<u8>,
    pub delay_ms: u64,
}

/// What to store for a still image: the relative path and the encoded bytes.
pub struct CacheFile {
    pub key: String,
    pub bytes: Vec<u8>,
}

/// What to store for an animation: the relative path and its frames, in order.
pub struct GifFile {
    pub key: String,
    pub frames: Vec<GifFrame>,
}

/// Pixels laid out as RGBA8 bytes, four per pixel.
pub open spec fn rgba_bytes(px: Seq<[u8; 4]>) -> Seq<u8> {
    Seq::new(4 * px.len(), |i: int| px[i / 4]@[i % 4])
}

/// The bytes of the lossless WebP encoding of an RGBA8 buffer.
pub uninterp spec fn webp_lossless_of(width: u32, height: u32, rgba: Seq<u8>) -> Seq<u8>;

/// The error of the `image` crate, carried through opaquely.
#[verifier::external_type_specification]
#[verifier::external_body]
pub struct ExImageError(image::ImageError);

/// Relies on `image::write_buffer_with_format` with `ImageFormat::WebP`, which
/// encodes losslessly; it panics unless the buffer holds exactly
/// `width * height * 4` bytes, and fails only on a side of 0 or above 16384
/// (writing into memory does not fail).
#[verifier::external_body]
fn encode_webp(rgba: &[u8], width: u32, height: u32) -> (r: Result<Vec<u8>, image::ImageError>)
    requires
        rgba@.len() == width * height * 4,
    ensures
        r matches Ok(b) ==> b@ == webp_lossless_of(width, height, rgba@),
        1 <= width <= 16384 && 1 <= height <= 16384 ==> r is Ok,
{
    let mut out = std::io::Cursor::new(Vec::new());
    match image::write_buffer_with_format(
        &mut out,
        rgba,
        width,
        height,
        image::ExtendedColorType::Rgba8,
        image::ImageFormat::WebP,
    ) {
        Ok(()) => Ok(out.into_inner()),
        Err(e) => Err(e),
    }
}

/// Lays the pixels of an image out as RGBA8 bytes.
pub fn color_image_to_rgba(img: &ColorImage) -> (r: Vec<u8>)
    ensures
        r@ == rgba_bytes(img.pixels@),
{
    let mut r: Vec<u8> = Vec::new();
    let mut i: usize = 0;
    while i < img.pixels.len()
        invariant
            i <= img.pixels@.len(),
            r@ =~= rgba_bytes(img.pixels@.subrange(0, i as int)),
        decreases img.pixels@.len() - i,
    {
        let p = img.pixels[i];
        r.push(p[0]);
        r.push(p[1]);
        r.push(p[2]);
        r.push(p[3]);
        i = i + 1;
        assert(r@ =~= rgba_bytes(img.pixels@.subrange(0, i as int)));
    }
    assert(img.pixels@.subrange(0, i as int) =~= img.pixels@);
    r
}

/// The image has sides that the WebP format can hold: 1 to 16384 pixels.
pub open spec fn webp_dimensions(img: &ColorImage) -> bool {
    1 <= img.size[0] <= 16384 && 1 <= img.size[1] <= 16384
}

/// The image is consistent and its sides fit the encoders' `u32`.
pub open spec fn still_encodable(img: &ColorImage) -> bool {
    img.wf() && img.size[0] <= u32::MAX && img.size[1] <= u32::MAX
}

/// The frame is consistent and its sides fit an animation frame (16 bits).
pub open spec fn gif_encodable(img: &ColorImage) -> bool {
    img.wf() && img.size[0] <= u16::MAX && img.size[1] <= u16::MAX
}

pub open spec fn gif_frame_view(f: &GifFrame) -> (u32, u32, Seq<u8>, u64) {
    (f.width, f.height, f.rgba@, f.delay_ms)
}

/// The frames that an animation stores: each encodable frame, in order, with
/// its delay; the others are skipped.
pub open spec fn gif_frames(data: Seq<ImageFrame>) -> Seq<(u32, u32, Seq<u8>, u64)>
    decreases data.len(),
{
    if data.len() == 0 {
        Seq::empty()
    } else {
        let f = data.last();
        let rest = gif_frames(data.drop_last());
        if gif_encodable(&f.image) {
            rest.push(
                (f.image.size[0] as u32, f.image.size[1] as u32, rgba_bytes(f.image.pixels@), f.delay_ms),
            )
        } else {
            rest
        }
    }
}

impl MediaCache {
    /// Encodes a still image losslessly for storage at the URL's cache key.
    /// An image whose pixel count does not match its size, or whose sides do
    /// not fit in `u32`, is refused with `ImageSize`. A consistent image with
    /// sides of 1 to 16384 pixels is always encoded; the encoder refuses
    /// other sides with `Image`.
    pub fn write(url: &str, data: &ColorImage) -> (r: Result<CacheFile, Error>)
        ensures
            r matches Err(Error::ImageSize) <==> !still_encodable(data),
            still_encodable(data) ==> (r is Ok || r matches Err(Error::Image(_))),
            still_encodable(data) && webp_dimensions(data) ==> r is Ok,
            r matches Ok(f) ==> f.key@ == key_of_url(url@) && f.bytes@ == webp_lossless_of(
                data.size[0] as u32,
                data.size[1] as u32,
                rgba_bytes(data.pixels@),
            ),
    {
        let w = data.size[0];
        let h = data.size[1];
        if w > u32::MAX as usize || h > u32::MAX as usize {
            return Err(Error::ImageSize);
        }
        let len = data.pixels.len();
        match w.checked_mul(h) {
            Some(n) => {
                if n != len {
                    return Err(Error::ImageSize);
                }
            },
            None => {
                return Err(Error::ImageSize);
            },
        }
        let rgba = color_image_to_rgba(data);
        match encode_webp(rgba.as_slice(), w as u32, h as u32) {
            Ok(bytes) => Ok(CacheFile { key: MediaCache::key(url), bytes }),
            Err(e) => Err(Error::Image(e)),
        }
    }

    /// Prepares an animation for storage at the URL's cache key: each frame as
    /// RGBA8 bytes with its delay, in order. A frame whose pixel count does not
    /// match its size, or whose sides do not fit in 16 bits, is skipped and
    /// the rest are kept.
    pub fn write_gif(url: &str, data: Vec<ImageFrame>) -> (r: GifFile)
        ensures
            r.key@ == key_of_url(url@),
            r.frames@.map_values(|f: GifFrame| gif_frame_view(&f)) == gif_frames(data@),
    {
        let mut frames: Vec<GifFrame> = Vec::new();
        let mut i: usize = 0;
        while i < data.len()
            invariant
                i <= data@.len(),
                frames@.map_values(|f: GifFrame| gif_frame_view(&f)) == gif_frames(
                    data@.subrange(0, i as int),
                ),
            decreases data@.len() - i,
        {
            let f = &data[i];
            proof {
                assert(data@.subrange(0, i + 1).drop_last() =~= data@.subrange(0, i as int));
            }
            let w = f.image.size[0];
            let h = f.image.size[1];
            if w <= u16::MAX as usize && h <= u16::MAX as usize {
                assert(w * h <= u16::MAX * u16::MAX) by (nonlinear_arith)
                    requires w <= u16::MAX, h <= u16::MAX;
                if w * h == f.image.pixels.len() {
                    let rgba = color_image_to_rgba(&f.image);
                    let ghost before = frames@.map_values(|f: GifFrame| gif_frame_view(&f));
                    let g = GifFrame { width: w as u32, height: h as u32, rgba, delay_ms: f.delay_ms };
                    frames.push(g);
                    proof {
                        assert(frames@.map_values(|f: GifFrame| gif_frame_view(&f)) =~= before.push(
                            gif_frame_view(&g),
                        ));
                    }
                }
            }
            i = i + 1;
        }
        proof {
            assert(data@.subrange(0, data@.len() as int) =~= data@);
        }
        GifFile { key: MediaCache::key(url), frames }
    }
}

} // verus!
