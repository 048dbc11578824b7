//! Seed color extraction: decode → downscale → quantize (Celebi) → score.

use vstd::prelude::*;

use image::AnimationDecoder;
use material_colors::quantize::Quantizer;

use crate::color::Argb;

verus! {

/// Extraction settings.
#[derive(Debug, Clone)]
pub struct ExtractOptions {
    /// Target bitmap edge for downscaling before quantization (`--size`).
    pub bitmap_size: u32,
    /// Max quantizer colors.
    pub max_colors: usize,
}

impl Default for ExtractOptions {
    fn default() -> (o: ExtractOptions)
        ensures
            o.bitmap_size == 128,
            o.max_colors == 128,
    {
        ExtractOptions { bitmap_size: 128, max_colors: 128 }
    }
}

// ── downscaling ─────────────────────────────────────────────────────────

/// `n` is `sqrt(num / den)` rounded to the nearest integer, halves rounding up.
pub open spec fn is_round_sqrt(num: int, den: int, n: int) -> bool {
    &&& n >= 0
    &&& (n == 0 || (2 * n - 1) * (2 * n - 1) * den <= 4 * num)
    &&& 4 * num < (2 * n + 1) * (2 * n + 1) * den
}

/// `sqrt(num / den)` rounded to the nearest integer (halves up).
pub open spec fn round_sqrt(num: int, den: int) -> int {
    choose|n: int| is_round_sqrt(num, den, n)
}

/// At least 1.
pub open spec fn at_least_one(x: int) -> int {
    if x < 1 {
        1
    } else {
        x
    }
}

/// The downscaled size: images larger than `bitmap²` in area are scaled by
/// `sqrt(bitmap² / area)`, each side rounded to the nearest integer; smaller
/// images keep their size; no side is below 1.
pub open spec fn scaled_size(width: int, height: int, bitmap: int) -> (int, int) {
    if width * height <= bitmap * bitmap {
        (at_least_one(width), at_least_one(height))
    } else {
        (
            at_least_one(round_sqrt(width * bitmap * bitmap, height)),
            at_least_one(round_sqrt(height * bitmap * bitmap, width)),
        )
    }
}

proof fn lemma_round_sqrt_unique(num: int, den: int, a: int, b: int)
    requires
        den > 0,
        is_round_sqrt(num, den, a),
        is_round_sqrt(num, den, b),
    ensures
        a == b,
{
    if a < b {
        // (2a+1)² ≤ (2b-1)², so 4·num < (2a+1)²·den ≤ (2b-1)²·den ≤ 4·num
        assert((2 * a + 1) * (2 * a + 1) * den <= (2 * b - 1) * (2 * b - 1) * den) by (nonlinear_arith)
            requires
                0 <= a < b,
                den > 0,
        ;
    }
    if b < a {
        assert((2 * b + 1) * (2 * b + 1) * den <= (2 * a - 1) * (2 * a - 1) * den) by (nonlinear_arith)
            requires
                0 <= b < a,
                den > 0,
        ;
    }
}

fn round_ok(num: u128, den: u128, n: u128) -> (r: bool)
    requires
        n <= 0x1_0000_0000,
        den <= 0xffff_ffff,
        num <= 0x1_0000_0000_0000_0000_0000_0000,
    ensures
        r == (n == 0 || (2 * n - 1) * (2 * n - 1) * den <= 4 * num),
{
    if n == 0 {
        true
    } else {
        assert((2 * n - 1) * (2 * n - 1) * den <= 0x4_0000_0000 * 0x4_0000_0000 * 0xffff_ffff) by (nonlinear_arith)
            requires
                1 <= n <= 0x1_0000_0000,
                den <= 0xffff_ffff,
        ;
        let m = 2 * n - 1;
        assert(m * m <= 0x4_0000_0000 * 0x4_0000_0000) by (nonlinear_arith)
            requires
                m <= 0x2_0000_0000,
        ;
        assert(m * m * den <= 0x4_0000_0000 * 0x4_0000_0000 * 0xffff_ffff) by (nonlinear_arith)
            requires
                m * m <= 0x4_0000_0000 * 0x4_0000_0000,
                den <= 0xffff_ffff,
        ;
        let mm = m * m;
        mm * den <= 4 * num
    }
}

/// `sqrt(num / den)` rounded, searched in `0..=hi`.
fn round_sqrt_exec(num: u128, den: u128, hi: u128) -> (n: u128)
    requires
        0 < den <= 0xffff_ffff,
        hi < 0x1_0000_0000,
        num <= 0x1_0000_0000_0000_0000_0000_0000,
        4 * num < (2 * hi + 1) * (2 * hi + 1) * den,
    ensures
        is_round_sqrt(num as int, den as int, n as int),
        n <= hi,
{
    let mut lo: u128 = 0;
    let mut up: u128 = hi + 1;
    while up - lo > 1
        invariant
            0 < den <= 0xffff_ffff,
            num <= 0x1_0000_0000_0000_0000_0000_0000,
            lo < up <= hi + 1,
            hi < 0x1_0000_0000,
            lo == 0 || (2 * lo - 1) * (2 * lo - 1) * den <= 4 * num,
            4 * num < (2 * (up - 1) + 1) * (2 * (up - 1) + 1) * den,
        decreases up - lo,
    {
        let mid = lo + (up - lo) / 2;
        if round_ok(num, den, mid) {
            lo = mid;
        } else {
            up = mid;
            assert((2 * (mid - 1) + 1) * (2 * (mid - 1) + 1) == (2 * mid - 1) * (2 * mid - 1)) by (nonlinear_arith)
                requires
                    mid >= 1,
            ;
        }
    }
    lo
}

fn scaled_side(side: u32, other: u32, bitmap: u32) -> (n: u32)
    requires
        side as int * other as int > bitmap as int * bitmap as int,
    ensures
        n as int == at_least_one(round_sqrt(side as int * bitmap as int * bitmap as int, other as int)),
        1 <= n <= side,
{
    let s = side as u128;
    let o = other as u128;
    let b = bitmap as u128;
    assert(s * o > b * b);
    assert(s >= 1 && o >= 1) by (nonlinear_arith)
        requires
            s * o > b * b,
            s >= 0,
            o >= 0,
            b >= 0,
    ;
    assert(s * b * b <= 0xffff_ffff * 0xffff_ffff * 0xffff_ffff) by (nonlinear_arith)
        requires
            s <= 0xffff_ffff,
            b <= 0xffff_ffff,
    ;
    assert(s * b <= 0xffff_ffff * 0xffff_ffff) by (nonlinear_arith)
        requires
            s <= 0xffff_ffff,
            b <= 0xffff_ffff,
    ;
    let sb = s * b;
    let num = sb * b;
    assert(4 * num < (2 * s + 1) * (2 * s + 1) * o) by (nonlinear_arith)
        requires
            num == s * b * b,
            s * o > b * b,
            s >= 1,
            o >= 1,
    ;
    let n = round_sqrt_exec(num, o, s);
    proof {
        lemma_round_sqrt_unique(num as int, o as int, n as int, round_sqrt(num as int, o as int));
    }
    if n < 1 {
        1
    } else {
        n as u32
    }
}

/// Downscale size before quantization: scale so the area is about
/// `bitmap_size²`, never upscale, keep every side at least 1.
pub fn optimal_size(width: u32, height: u32, bitmap_size: u32) -> (r: (u32, u32))
    ensures
        (r.0 as int, r.1 as int) == scaled_size(width as int, height as int, bitmap_size as int),
        1 <= r.0 <= at_least_one(width as int),
        1 <= r.1 <= at_least_one(height as int),
{
    let w128 = width as u128;
    let h128 = height as u128;
    let b128 = bitmap_size as u128;
    assert(w128 * h128 <= 0xffff_ffff * 0xffff_ffff) by (nonlinear_arith)
        requires
            w128 <= 0xffff_ffff,
            h128 <= 0xffff_ffff,
    ;
    assert(b128 * b128 <= 0xffff_ffff * 0xffff_ffff) by (nonlinear_arith)
        requires
            b128 <= 0xffff_ffff,
    ;
    let area = w128 * h128;
    let bitmap_area = b128 * b128;
    if area <= bitmap_area {
        let w = if width < 1 { 1 } else { width };
        let h = if height < 1 { 1 } else { height };
        (w, h)
    } else {
        proof {
            assert(height as int * width as int > bitmap_size as int * bitmap_size as int) by (nonlinear_arith)
                requires
                    width as int * height as int > bitmap_size as int * bitmap_size as int,
            ;
        }
        (scaled_side(width, height, bitmap_size), scaled_side(height, width, bitmap_size))
    }
}

// ── quantizer input ─────────────────────────────────────────────────────

/// The opaque pixels (alpha 255) as opaque colors.
pub open spec fn opaque_pixels(rgba: Seq<(u8, u8, u8, u8)>) -> Seq<Argb>
    decreases rgba.len(),
{
    if rgba.len() == 0 {
        Seq::empty()
    } else {
        let p = rgba.last();
        let rest = opaque_pixels(rgba.drop_last());
        if p.3 == 255 {
            rest.push(Argb { alpha: 255, red: p.0, green: p.1, blue: p.2 })
        } else {
            rest
        }
    }
}

/// Every pixel as an opaque color.
pub open spec fn all_pixels(rgba: Seq<(u8, u8, u8, u8)>) -> Seq<Argb> {
    rgba.map_values(|p: (u8, u8, u8, u8)| Argb { alpha: 255, red: p.0, green: p.1, blue: p.2 })
}

/// The quantizer's input: the opaque pixels, or every pixel (made opaque)
/// when none is opaque.
pub open spec fn quantizer_pixels(rgba: Seq<(u8, u8, u8, u8)>) -> Seq<Argb> {
    if opaque_pixels(rgba).len() == 0 {
        all_pixels(rgba)
    } else {
        opaque_pixels(rgba)
    }
}

/// The pixels handed to the quantizer: non-opaque pixels are dropped,
/// unless no pixel is opaque, in which case all are kept (made opaque).
pub fn quantizer_input(rgba: &[(u8, u8, u8, u8)]) -> (pixels: Vec<Argb>)
    ensures
        pixels@ == quantizer_pixels(rgba@),
        pixels@.len() <= rgba@.len(),
        pixels@.len() == 0 <==> rgba@.len() == 0,
        forall|k: int| 0 <= k < pixels@.len() ==> (#[trigger] pixels@[k]).alpha == 255,
{
    let mut opaque: Vec<Argb> = Vec::new();
    let mut i: usize = 0;
    while i < rgba.len()
        invariant
            0 <= i <= rgba@.len(),
            opaque@ == opaque_pixels(rgba@.take(i as int)),
            opaque@.len() <= i,
            forall|k: int| 0 <= k < opaque@.len() ==> (#[trigger] opaque@[k]).alpha == 255,
        decreases rgba@.len() - i,
    {
        assert(rgba@.take(i + 1).drop_last() =~= rgba@.take(i as int));
        let p = rgba[i];
        if p.3 == 255 {
            opaque.push(Argb { alpha: 255, red: p.0, green: p.1, blue: p.2 });
        }
        i = i + 1;
    }
    assert(rgba@.take(i as int) =~= rgba@);
    if opaque.len() > 0 {
        return opaque;
    }
    let mut all: Vec<Argb> = Vec::new();
    let mut j: usize = 0;
    while j < rgba.len()
        invariant
            0 <= j <= rgba@.len(),
            all@ == all_pixels(rgba@).take(j as int),
            all@.len() == j,
            forall|k: int| 0 <= k < all@.len() ==> (#[trigger] all@[k]).alpha == 255,
        decreases rgba@.len() - j,
    {
        let p = rgba[j];
        all.push(Argb { alpha: 255, red: p.0, green: p.1, blue: p.2 });
        assert(all@ =~= all_pixels(rgba@).take(j + 1));
        j = j + 1;
    }
    assert(all_pixels(rgba@).take(j as int) =~= all_pixels(rgba@));
    all
}

// ── seed selection ──────────────────────────────────────────────────────

/// The colors material-colors ranks for an image: `QuantizerCelebi` run on
/// the pixels with the given color budget, then `Score::score` with its
/// defaults, best first.
pub uninterp spec fn celebi_score_ranking(pixels: Seq<Argb>, max_colors: usize) -> Seq<Argb>;

/// material-colors' `QuantizerCelebi::quantize(pixels, max_colors)` followed
/// by `Score::score(&result.color_to_count, None, None, None)`. The ranking is
/// named, not stated; the source shows it is never empty (an empty choice
/// falls back to a fixed blue). A budget of 0 colors makes the quantizer
/// index an empty cube table, so it is left out.
#[verifier::external_body]
fn rank_colors(pixels: &[Argb], max_colors: usize) -> (r: Vec<Argb>)
    requires
        max_colors >= 1,
    ensures
        r@ == celebi_score_ranking(pixels@, max_colors),
        r@.len() >= 1,
{
    let px: Vec<material_colors::color::Argb> =
        pixels.iter().map(|p| material_colors::color::Argb::new(p.alpha, p.red, p.green, p.blue)).collect();
    let result = material_colors::quantize::QuantizerCelebi::quantize(&px, max_colors);
    let ranked = material_colors::score::Score::score(&result.color_to_count, None, None, None);
    ranked.into_iter().map(|c| Argb { alpha: c.alpha, red: c.red, green: c.green, blue: c.blue }).collect()
}

/// The seed color of prepared pixels: the best-ranked quantized color.
pub fn seed_color(pixels: &[Argb], max_colors: usize) -> (c: Argb)
    requires
        max_colors >= 1,
    ensures
        c == celebi_score_ranking(pixels@, max_colors)[0],
{
    let ranked = rank_colors(pixels, max_colors);
    ranked[0]
}

// ── decoded images ──────────────────────────────────────────────────────

/// An 8-bit RGBA image: its size and its pixels, row by row.
#[derive(Debug, Clone)]
pub struct RgbaImage {
    pub width: u32,
    pub height: u32,
    pub pixels: Vec<(u8, u8, u8, u8)>,
}

/// The plain view of an image: (width, height, pixels).
pub type ImageView = (u32, u32, Seq<(u8, u8, u8, u8)>);

impl RgbaImage {
    /// (width, height, pixels).
    pub open spec fn view_image(&self) -> ImageView {
        (self.width, self.height, self.pixels@)
    }

    /// One pixel per grid position.
    pub open spec fn well_formed(&self) -> bool {
        self.pixels@.len() == self.width * self.height
    }
}

#[verifier::external_type_specification]
#[verifier::external_body]
pub struct ExImageError(image::ImageError);

/// What image's `guess_format` makes of the leading bytes: `None` when no
/// known signature matches, else whether the format is GIF.
pub uninterp spec fn guessed_gif(bytes: Seq<u8>) -> Option<bool>;

/// The first two frames of image's GIF decoder on the bytes, as RGBA
/// images: `None` when the decoder cannot be set up; for each frame slot
/// `None` when there is no such frame, `Some(None)` when it fails to decode.
pub uninterp spec fn gif_lead_frames(bytes: Seq<u8>) -> Option<(Option<Option<ImageView>>, Option<Option<ImageView>>)>;

/// The size image's built-in decoder for the format `guess_format` finds
/// reports for the bytes (the size the decoded image has), or `None` when
/// no format is recognized or the decoder cannot be set up.
pub uninterp spec fn decoded_dims(bytes: Seq<u8>) -> Option<(u32, u32)>;

/// The bytes decoded by image's built-in decoder for the format
/// `guess_format` finds, resized with `resize_exact` (Catmull-Rom) at the
/// image's own colour depth to `width × height`, then converted to 8-bit
/// RGBA (`to_rgba8`); `None` when decoding fails. Resizing to the image's
/// own size copies it.
pub uninterp spec fn decoded_scaled_rgba(bytes: Seq<u8>, width: u32, height: u32) -> Option<Seq<(u8, u8, u8, u8)>>;

/// The bytes decoded as above, resized with `resize` (Triangle filter) to
/// fit within `max_width × max_height` keeping the aspect ratio, then
/// converted to 8-bit RGB (`to_rgb8`): (width, height, pixels); `None`
/// when decoding fails.
pub uninterp spec fn decoded_fit_rgb(bytes: Seq<u8>, max_width: u32, max_height: u32) -> Option<(u32, u32, Seq<(u8, u8, u8)>)>;

/// image's `resize_exact` with the Catmull-Rom filter applied to an 8-bit
/// RGBA image of the given size, resampling it to `new_width × new_height`.
pub uninterp spec fn catmull_rom_resized(
    pixels: Seq<(u8, u8, u8, u8)>,
    width: u32,
    height: u32,
    new_width: u32,
    new_height: u32,
) -> Seq<(u8, u8, u8, u8)>;

/// A frame slot of the GIF decoder as a view.
pub open spec fn frame_slot(f: Option<Result<RgbaImage, image::ImageError>>) -> Option<Option<ImageView>> {
    match f {
        None => None,
        Some(Ok(img)) => Some(Some(img.view_image())),
        Some(Err(_)) => Some(None),
    }
}

/// A frame slot holds a well-formed image when it decoded.
pub open spec fn slot_ok(f: Option<Result<RgbaImage, image::ImageError>>) -> bool {
    f matches Some(Ok(img)) ==> img.well_formed()
}

/// image's `guess_format(bytes)`, compared with `ImageFormat::Gif`; it fails
/// only when no known signature matches.
#[verifier::external_body]
fn guess_is_gif(bytes: &[u8]) -> (r: Result<bool, image::ImageError>)
    ensures
        match r {
            Ok(g) => guessed_gif(bytes@) == Some(g),
            Err(_) => guessed_gif(bytes@) is None,
        },
{
    image::guess_format(bytes).map(|f| f == image::ImageFormat::Gif)
}

/// image's `GifDecoder::new` on the bytes and the first two items of its
/// `into_frames()`, each frame's RGBA buffer with its size and pixels.
#[verifier::external_body]
fn gif_leading_frames(bytes: &[u8]) -> (r: Result<
    (Option<Result<RgbaImage, image::ImageError>>, Option<Result<RgbaImage, image::ImageError>>),
    image::ImageError,
>)
    ensures
        match r {
            Ok((first, second)) => gif_lead_frames(bytes@) == Some((frame_slot(first), frame_slot(second)))
                && slot_ok(first) && slot_ok(second),
            Err(_) => gif_lead_frames(bytes@) is None,
        },
{
    let conv = |b: image::RgbaImage| RgbaImage { width: b.width(), height: b.height(), pixels: b.pixels().map(|p| (p.0[0], p.0[1], p.0[2], p.0[3])).collect() };
    let mut frames = image::codecs::gif::GifDecoder::new(std::io::Cursor::new(bytes))?.into_frames();
    let first = frames.next().map(|r| r.map(|f| conv(f.into_buffer())));
    let second = frames.next().map(|r| r.map(|f| conv(f.into_buffer())));
    Ok((first, second))
}

/// image's `ImageReader::into_dimensions` with the built-in format that
/// `guess_format` finds (no decoding hooks are consulted).
#[verifier::external_body]
fn decoded_size(bytes: &[u8]) -> (r: Result<(u32, u32), image::ImageError>)
    ensures
        match r {
            Ok(d) => decoded_dims(bytes@) == Some(d),
            Err(_) => decoded_dims(bytes@) is None,
        },
{
    image::ImageReader::with_format(std::io::Cursor::new(bytes), image::guess_format(bytes)?).into_dimensions()
}

/// image's `load_from_memory_with_format` with the format `guess_format`
/// finds, then `resize_exact` (Catmull-Rom) to the given size and
/// `to_rgba8`: an image of exactly that size.
#[verifier::external_body]
fn decode_scaled(bytes: &[u8], width: u32, height: u32) -> (r: Result<RgbaImage, image::ImageError>)
    ensures
        match r {
            Ok(img) => decoded_scaled_rgba(bytes@, width, height) == Some(img.pixels@) && img.width == width
                && img.height == height && img.well_formed(),
            Err(_) => decoded_scaled_rgba(bytes@, width, height) is None,
        },
{
    let img = image::load_from_memory_with_format(bytes, image::guess_format(bytes)?)?;
    let b = img.resize_exact(width, height, image::imageops::FilterType::CatmullRom).to_rgba8();
    Ok(RgbaImage { width: b.width(), height: b.height(), pixels: b.pixels().map(|p| (p.0[0], p.0[1], p.0[2], p.0[3])).collect() })
}

/// image's `load_from_memory_with_format` with the format `guess_format`
/// finds, then `resize` (Triangle) to fit the bounds and `to_rgb8`.
#[verifier::external_body]
fn decode_fit_rgb(bytes: &[u8], max_width: u32, max_height: u32) -> (r: Result<(u32, u32, Vec<(u8, u8, u8)>), image::ImageError>)
    ensures
        match r {
            Ok((w, h, px)) => decoded_fit_rgb(bytes@, max_width, max_height) == Some((w, h, px@)) && px@.len() == w * h,
            Err(_) => decoded_fit_rgb(bytes@, max_width, max_height) is None,
        },
{
    let img = image::load_from_memory_with_format(bytes, image::guess_format(bytes)?)?;
    let b = img.resize(max_width, max_height, image::imageops::FilterType::Triangle).to_rgb8();
    Ok((b.width(), b.height(), b.pixels().map(|p| (p.0[0], p.0[1], p.0[2])).collect()))
}

/// image's `resize_exact` with the Catmull-Rom filter on the RGBA image: an
/// image of exactly the requested size.
#[verifier::external_body]
fn resize_rgba(img: &RgbaImage, width: u32, height: u32) -> (r: RgbaImage)
    requires
        img.well_formed(),
    ensures
        r.width == width,
        r.height == height,
        r.pixels@ == catmull_rom_resized(img.pixels@, img.width, img.height, width, height),
        r.well_formed(),
{
    let raw: Vec<u8> = img.pixels.iter().flat_map(|p| [p.0, p.1, p.2, p.3]).collect();
    let buf = image::RgbaImage::from_raw(img.width, img.height, raw).unwrap();
    let b = image::DynamicImage::ImageRgba8(buf).resize_exact(width, height, image::imageops::FilterType::CatmullRom).to_rgba8();
    RgbaImage { width: b.width(), height: b.height(), pixels: b.pixels().map(|p| (p.0[0], p.0[1], p.0[2], p.0[3])).collect() }
}

/// The pixels an image is quantized from: resampled to the downscaled size
/// when that is smaller on either side, else its own pixels.
pub open spec fn scaled_rgba(v: ImageView, bitmap_size: u32) -> Seq<(u8, u8, u8, u8)> {
    let (nw, nh) = scaled_size(v.0 as int, v.1 as int, bitmap_size as int);
    if nw < v.0 || nh < v.1 {
        catmull_rom_resized(v.2, v.0, v.1, nw as u32, nh as u32)
    } else {
        v.2
    }
}

/// Downscale an image when it exceeds the bitmap area (never upscale), then
/// take its quantizer input.
pub fn image_pixels(img: &RgbaImage, opts: &ExtractOptions) -> (pixels: Vec<Argb>)
    requires
        img.well_formed(),
    ensures
        pixels@ == quantizer_pixels(scaled_rgba(img.view_image(), opts.bitmap_size)),
        forall|k: int| 0 <= k < pixels@.len() ==> (#[trigger] pixels@[k]).alpha == 255,
{
    let (nw, nh) = optimal_size(img.width, img.height, opts.bitmap_size);
    if nw < img.width || nh < img.height {
        let small = resize_rgba(img, nw, nh);
        quantizer_input(small.pixels.as_slice())
    } else {
        quantizer_input(img.pixels.as_slice())
    }
}

/// The frame slot decoding uses: the second when there is one, else the first.
pub open spec fn chosen_slot(first: Option<Option<ImageView>>, second: Option<Option<ImageView>>) -> Option<Option<ImageView>> {
    if second is Some {
        second
    } else {
        first
    }
}

/// The GIF frame that decoding uses: the chosen leading frame, when the
/// bytes are a GIF whose decoder sets up and that frame decodes.
pub open spec fn gif_frame_used(bytes: Seq<u8>) -> Option<ImageView> {
    if guessed_gif(bytes) == Some(true) {
        match gif_lead_frames(bytes) {
            Some((first, second)) => match chosen_slot(first, second) {
                Some(Some(v)) => Some(v),
                _ => None,
            },
            None => None,
        }
    } else {
        None
    }
}

/// The size a decoded image is quantized at: the downscaled size when it is
/// smaller on either side, else the image's own size.
pub open spec fn target_size(dims: (u32, u32), bitmap_size: u32) -> (u32, u32) {
    let (nw, nh) = scaled_size(dims.0 as int, dims.1 as int, bitmap_size as int);
    if nw < dims.0 || nh < dims.1 {
        (nw as u32, nh as u32)
    } else {
        dims
    }
}

/// The whole file decodes: its size reads and it decodes at its target size.
pub open spec fn file_decodes(bytes: Seq<u8>, bitmap_size: u32) -> bool {
    &&& decoded_dims(bytes) is Some
    &&& decoded_scaled_rgba(bytes, target_size(decoded_dims(bytes)->0, bitmap_size).0,
        target_size(decoded_dims(bytes)->0, bitmap_size).1) is Some
}

/// Decoding succeeds: the format is recognized, and either it is a GIF whose
/// chosen leading frame decodes, or the whole file decodes (a GIF whose
/// decoder cannot be set up fails outright).
pub open spec fn decode_succeeds(bytes: Seq<u8>, bitmap_size: u32) -> bool {
    match guessed_gif(bytes) {
        None => false,
        Some(false) => file_decodes(bytes, bitmap_size),
        Some(true) => gif_lead_frames(bytes) is Some && (gif_frame_used(bytes) is Some || file_decodes(
            bytes,
            bitmap_size,
        )),
    }
}

/// The pixels quantized: those of the GIF frame in use, downscaled; else
/// the whole file's, resized at its own depth to its target size.
pub open spec fn decoded_rgba(bytes: Seq<u8>, bitmap_size: u32) -> Seq<(u8, u8, u8, u8)> {
    match gif_frame_used(bytes) {
        Some(v) => scaled_rgba(v, bitmap_size),
        None => {
            let t = target_size(decoded_dims(bytes)->0, bitmap_size);
            decoded_scaled_rgba(bytes, t.0, t.1)->0
        },
    }
}

/// Decode image bytes (any supported format) into the quantizer input.
/// GIF: the second frame when there is one, else the first; when that frame
/// does not decode, the whole file is decoded. The whole file is resized at
/// its own colour depth before it is converted to 8-bit RGBA.
pub fn decode_pixels(bytes: &[u8], opts: &ExtractOptions) -> (r: Result<Vec<Argb>, image::ImageError>)
    ensures
        r is Ok <==> decode_succeeds(bytes@, opts.bitmap_size),
        r matches Ok(pixels) ==> pixels@ == quantizer_pixels(decoded_rgba(bytes@, opts.bitmap_size)),
        r matches Ok(pixels) ==> forall|k: int| 0 <= k < pixels@.len() ==> (#[trigger] pixels@[k]).alpha == 255,
{
    let is_gif = match guess_is_gif(bytes) {
        Ok(g) => g,
        Err(e) => return Err(e),
    };
    if is_gif {
        let (first, second) = match gif_leading_frames(bytes) {
            Ok(frames) => frames,
            Err(e) => return Err(e),
        };
        let ghost slot = chosen_slot(frame_slot(first), frame_slot(second));
        let chosen = match second {
            Some(f) => Some(f),
            None => first,
        };
        assert(frame_slot(chosen) == slot && slot_ok(chosen));
        if let Some(Ok(frame)) = chosen {
            return Ok(image_pixels(&frame, opts));
        }
    }
    let (w, h) = match decoded_size(bytes) {
        Ok(d) => d,
        Err(e) => return Err(e),
    };
    let (nw, nh) = optimal_size(w, h, opts.bitmap_size);
    let (tw, th) = if nw < w || nh < h { (nw, nh) } else { (w, h) };
    assert((tw, th) == target_size((w, h), opts.bitmap_size));
    match decode_scaled(bytes, tw, th) {
        Ok(img) => Ok(quantizer_input(img.pixels.as_slice())),
        Err(e) => Err(e),
    }
}

/// The pixels a scheme is picked from: the image decoded as above, resized
/// to fit 128×128 (Triangle filter, aspect kept), as 8-bit RGB.
pub fn scheme_pixels(bytes: &[u8]) -> (r: Result<Vec<(u8, u8, u8)>, image::ImageError>)
    ensures
        r is Ok <==> decoded_fit_rgb(bytes@, 128, 128) is Some,
        r matches Ok(px) ==> decoded_fit_rgb(bytes@, 128, 128) matches Some(d) && px@ == d.2 && px@.len() == d.0 * d.1,
{
    match decode_fit_rgb(bytes, 128, 128) {
        Ok((_, _, px)) => Ok(px),
        Err(e) => Err(e),
    }
}

} // verus!
