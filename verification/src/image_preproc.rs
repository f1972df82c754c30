//! Images made small enough for the model: scaled down to a largest side, without transparency, as
//! JPEG.
use crate::base64::{base64_decode, base64_encode, decoded, encoded};
use crate::text::same;
use crate::types::{ImageBlock, ImageBlockV};
use vstd::prelude::*;

verus! {

/// The largest side of an image that is sent.
pub const DEFAULT_MAX_DIMENSION: u32 = 1920;

/// The quality of the JPEG that is sent.
pub const DEFAULT_JPEG_QUALITY: u8 = 85;

/// What a decoded image stands for.
pub struct PictureV {
    pub width: u32,
    pub height: u32,
    /// Whether its pixels can be transparent.
    pub alpha: bool,
    /// Whether the container of its samples holds those of its pixels and no more.
    pub exact: bool,
    /// The rest of what it holds: the kind of its pixels, its color space and its samples.
    pub samples: Seq<int>,
}

/// A decoded image, as the `image` crate holds it.
#[verifier::external_type_specification]
#[verifier::external_body]
pub struct ExDynamicImage(image::DynamicImage);

/// What an `image::DynamicImage` holds.
pub uninterp spec fn picture(img: image::DynamicImage) -> PictureV;

/// The width and the height of the image that `image::load_from_memory_with_format` reads from bytes
/// in the format that they begin like, and whether its pixels can be transparent; none where they
/// begin like no format or cannot be read.
pub uninterp spec fn frame_in(bytes: Seq<u8>) -> Option<(u32, u32, bool)>;

/// The width and the height of an image, and whether its pixels can be transparent.
pub open spec fn frame(p: PictureV) -> (u32, u32, bool) {
    (p.width, p.height, p.alpha)
}

/// The samples of an image as red, green, blue and opacity, one byte each, by
/// `image::DynamicImage::to_rgba8`.
pub uninterp spec fn rgba_of(p: PictureV) -> Seq<u8>;

/// The JPEG that `image::DynamicImage::write_with_encoder` makes of an image with an encoder of a
/// quality; none where it cannot.
pub uninterp spec fn jpeg_of(p: PictureV, quality: u8) -> Option<Seq<u8>>;

/// The JPEG that `image::codecs::jpeg::JpegEncoder::encode` makes of red, green and blue samples;
/// none where it cannot.
pub uninterp spec fn jpeg_of_rgb(
    samples: Seq<u8>,
    width: u32,
    height: u32,
    quality: u8,
) -> Option<Seq<u8>>;

/// Decodes bytes with `image::load_from_memory_with_format`, in the format that
/// `image::guess_format` reads off their beginning: there is an image exactly where the bytes hold
/// one, and it has that width, height and kind of pixels, and a container that was made for just its
/// pixels. Only the decoders of the crate itself take part, not those that a program may register,
/// so the bytes alone decide. The samples are computed with the vector instructions that the machine
/// has, so nothing is said of them.
#[verifier::external_body]
fn load_image(bytes: &Vec<u8>) -> (r: Option<image::DynamicImage>)
    ensures
        match r {
            Some(img) => frame_in(bytes@) == Some(frame(picture(img))) && picture(img).exact,
            None => frame_in(bytes@) is None,
        },
{
    let format = image::guess_format(bytes).ok()?;
    image::load_from_memory_with_format(bytes, format).ok()
}

/// The sides of an image, by `image::DynamicImage::width` and `height`.
#[verifier::external_body]
fn image_size(img: &image::DynamicImage) -> (r: (u32, u32))
    ensures
        r == (picture(*img).width, picture(*img).height),
{
    (img.width(), img.height())
}

/// Whether the pixels of an image can be transparent, by `image::ColorType::has_alpha` of its color
/// type.
#[verifier::external_body]
fn image_has_alpha(img: &image::DynamicImage) -> (r: bool)
    ensures
        r == picture(*img).alpha,
{
    img.color().has_alpha()
}

/// Scales an image with `image::DynamicImage::resize` to the largest that fits into a square, by the
/// Lanczos filter: its longer side becomes that of the square, its shorter side keeps the proportion
/// to within a pixel, its kind of pixels stays, and the container is made for just the pixels. A side
/// that would vanish is one pixel long. An image is not made larger, for which there may be no room.
/// The samples are computed with a sine, whose last digits are not fixed, so nothing is said of them.
#[verifier::external_body]
fn resize_image(img: &image::DynamicImage, side: u32) -> (r: image::DynamicImage)
    requires
        picture(*img).exact,
        side <= picture(*img).width || side <= picture(*img).height,
    ensures
        scaled(frame(picture(*img)), picture(r), side),
{
    img.resize(side, side, image::imageops::FilterType::Lanczos3)
}

/// The samples of an image, by `image::DynamicImage::to_rgba8`: four bytes for each pixel, where its
/// container, which may be handed out whole, holds no more than its pixels.
#[verifier::external_body]
fn rgba_samples(img: &image::DynamicImage) -> (r: Vec<u8>)
    requires
        picture(*img).exact,
    ensures
        r@ == rgba_of(picture(*img)),
        r@.len() == 4 * (picture(*img).width as nat * picture(*img).height as nat),
{
    img.to_rgba8().into_raw()
}

/// Encodes an image as JPEG with `image::DynamicImage::write_with_encoder`, which may hand out the
/// container of the image whole and then wants just its pixels in it.
#[verifier::external_body]
fn write_jpeg(img: &image::DynamicImage, quality: u8) -> (r: Option<Vec<u8>>)
    requires
        picture(*img).exact,
    ensures
        match r {
            Some(bytes) => jpeg_of(picture(*img), quality) == Some(bytes@),
            None => jpeg_of(picture(*img), quality) is None,
        },
{
    let mut buf = Vec::new();
    let done = img.write_with_encoder(
        image::codecs::jpeg::JpegEncoder::new_with_quality(&mut buf, quality),
    );
    done.ok().map(|_| buf)
}

/// Encodes red, green and blue samples as JPEG with `image::codecs::jpeg::JpegEncoder::encode`,
/// which wants three bytes for each pixel.
#[verifier::external_body]
fn write_rgb_jpeg(samples: &Vec<u8>, width: u32, height: u32, quality: u8) -> (r: Option<Vec<u8>>)
    requires
        samples@.len() == 3 * (width as nat * height as nat),
    ensures
        match r {
            Some(bytes) => jpeg_of_rgb(samples@, width, height, quality) == Some(bytes@),
            None => jpeg_of_rgb(samples@, width, height, quality) is None,
        },
{
    let mut buf = Vec::new();
    let done = image::codecs::jpeg::JpegEncoder::new_with_quality(&mut buf, quality).encode(
        samples, width, height, image::ExtendedColorType::Rgb8,
    );
    done.ok().map(|_| buf)
}

/// The unit in which shares are counted: 1 is this many units.
pub const UNIT: u64 = 0x8000_0000;

/// How far apart single-precision numbers are around `x` units: the smallest power of two of which
/// `x` holds fewer than two to the 24th.
pub open spec fn spacing(x: nat) -> nat
    decreases x,
{
    if x < 0x100_0000 {
        1
    } else {
        2 * spacing(x / 2)
    }
}

/// The single-precision number nearest to `x` units; of two that are as near, the even one.
pub open spec fn rounded(x: nat) -> nat {
    let p = spacing(x);
    let q = x / p;
    let r = x % p;
    if 2 * r > p || (2 * r == p && q % 2 == 1) {
        (q + 1) * p
    } else {
        q * p
    }
}

/// The single-precision number nearest to an opacity of `a` in 255.
pub open spec fn opacity(a: u8) -> nat {
    let p = spacing((a as nat * UNIT as nat) / 255);
    ((2 * (a as nat) * (UNIT as nat) + 255 * p) / (510 * p)) * p
}

/// A sample laid over white: the sample by its opacity and white by what is left of it, each step
/// rounded as single-precision numbers are, and the fraction of the sum dropped.
pub open spec fn over_white(sample: u8, a: u8) -> u8 {
    let share = opacity(a);
    let left = rounded((UNIT - share) as nat);
    let sum = rounded(rounded(sample as nat * share) + rounded(255 * left));
    let whole = sum / (UNIT as nat);
    if whole > 255 {
        255
    } else {
        whole as u8
    }
}

/// Samples of red, green, blue and opacity laid over white.
pub open spec fn flattened(rgba: Seq<u8>) -> Seq<u8> {
    Seq::new(
        rgba.len() / 4 * 3,
        |i: int| over_white(rgba[i / 3 * 4 + i % 3], rgba[i / 3 * 4 + 3]),
    )
}

/// What [`spacing`] is: a power of two that is not too small, and not too large.
proof fn lemma_spacing(x: nat)
    ensures
        spacing(x) >= 1,
        x < 0x100_0000 * spacing(x),
        spacing(x) == 1 || x >= 0x80_0000 * spacing(x),
    decreases x,
{
    if x >= 0x100_0000 {
        lemma_spacing(x / 2);
    }
}

/// How far apart single-precision numbers are around `x` units.
fn spacing_of(x: u64) -> (r: u64)
    ensures
        r == spacing(x as nat),
        1 <= r,
        r <= x || r == 1,
    decreases x,
{
    proof {
        lemma_spacing(x as nat);
    }
    if x < 0x100_0000 {
        1
    } else {
        2 * spacing_of(x / 2)
    }
}

/// Rounding goes up by less than the spacing.
proof fn lemma_rounded(x: nat)
    ensures
        rounded(x) <= x + spacing(x),
        spacing(x) <= x + 1,
{
    lemma_spacing(x);
    let p = spacing(x);
    let q = x / p;
    assert(q * p <= x && (q + 1) * p <= x + p) by (nonlinear_arith)
        requires
            p >= 1,
            q == x / p,
    ;
}

/// The single-precision number nearest to `x` units.
fn round(x: u64) -> (r: u64)
    requires
        x <= 0x1_0000_0000_0000,
    ensures
        r == rounded(x as nat),
        r <= 2 * x + 1,
{
    let p: u64 = spacing_of(x);
    proof {
        lemma_rounded(x as nat);
    }
    let q: u64 = x / p;
    let m: u64 = x % p;
    assert(q <= x && m < p && q * p <= x && (q + 1) * p <= x + p) by (nonlinear_arith)
        requires
            p >= 1,
            q == x / p,
            m == x % p,
    ;
    if 2 * m > p || (2 * m == p && q % 2 == 1) {
        (q + 1) * p
    } else {
        q * p
    }
}

/// Two to the power of `j`.
pub open spec fn two_to(j: nat) -> nat
    decreases j,
{
    if j == 0 {
        1
    } else {
        2 * two_to((j - 1) as nat)
    }
}

/// The spacing around numbers that are not too large divides a power of two.
proof fn lemma_spacing_divides(x: nat, j: nat) -> (k: nat)
    requires
        x < 0x100_0000 * two_to(j),
    ensures
        k * spacing(x) == two_to(j),
    decreases j,
{
    if x < 0x100_0000 {
        let k = two_to(j);
        assert(k * spacing(x) == k) by (nonlinear_arith)
            requires
                spacing(x) == 1,
        ;
        k
    } else {
        let k = lemma_spacing_divides(x / 2, (j - 1) as nat);
        let h = spacing(x / 2);
        assert(k * (2 * h) == 2 * (k * h)) by (nonlinear_arith);
        k
    }
}

/// The spacing around numbers below 256 divides one.
proof fn lemma_spacing_divides_one(x: nat) -> (k: nat)
    requires
        x < 256 * UNIT,
    ensures
        k * spacing(x) == UNIT,
{
    assert(two_to(31) == UNIT) by {
        reveal_with_fuel(two_to, 32);
    }
    lemma_spacing_divides(x, 31)
}

/// An opacity is at most one.
proof fn lemma_opacity(a: u8)
    ensures
        opacity(a) <= UNIT,
{
    let x = (a as nat * UNIT as nat) / 255;
    lemma_spacing(x);
    let k = lemma_spacing_divides_one(x);
    lemma_share(a, spacing(x), k);
}

/// A share of at most one, rounded to a multiple of what one is a multiple of, is at most one.
proof fn lemma_share(a: u8, p: nat, k: nat)
    requires
        p >= 1,
        k * p == UNIT,
    ensures
        ((2 * (a as nat) * (UNIT as nat) + 255 * p) / (510 * p)) * p <= UNIT,
{
    let top = 2 * (a as nat) * (UNIT as nat) + 255 * p;
    let m = top / (510 * p);
    assert(top <= (510 * k + 255) * p) by (nonlinear_arith)
        requires
            top == 2 * (a as nat) * (UNIT as nat) + 255 * p,
            k * p == UNIT,
            a <= 255,
    ;
    assert(m * (510 * p) <= top) by (nonlinear_arith)
        requires
            m == top / (510 * p),
            p >= 1,
    ;
    assert(m * 510 <= 510 * k + 255) by (nonlinear_arith)
        requires
            m * (510 * p) <= (510 * k + 255) * p,
            p >= 1,
    ;
    assert(m * p <= k * p) by (nonlinear_arith)
        requires
            m <= k,
    ;
}

/// The single-precision number nearest to an opacity of `a` in 255.
fn opacity_of(a: u8) -> (r: u64)
    ensures
        r == opacity(a),
        r <= UNIT,
{
    let full: u64 = (a as u64) * UNIT;
    let p: u64 = spacing_of(full / 255);
    proof {
        lemma_opacity(a);
    }
    let m: u64 = (2 * full + 255 * p) / (510 * p);
    assert(m * p == opacity(a));
    m * p
}

/// A sample laid over white.
pub fn blend(sample: u8, a: u8) -> (r: u8)
    ensures
        r == over_white(sample, a),
{
    let share: u64 = opacity_of(a);
    let left: u64 = round(UNIT - share);
    assert(sample as u64 * share <= 255 * UNIT) by (nonlinear_arith)
        requires
            share <= UNIT,
            sample <= 255,
    ;
    let sum: u64 = round(round(sample as u64 * share) + round(255 * left));
    let whole: u64 = sum / UNIT;
    if whole > 255 {
        255
    } else {
        whole as u8
    }
}

/// Samples of red, green, blue and opacity laid over white.
pub fn flatten(rgba: &Vec<u8>) -> (r: Vec<u8>)
    ensures
        r@ == flattened(rgba@),
{
    let ghost want = flattened(rgba@);
    let count: usize = rgba.len() / 4;
    let mut r: Vec<u8> = Vec::new();
    let mut k: usize = 0;
    assert(r@ =~= want.take(0));
    while k < count
        invariant
            k <= count,
            count == rgba.len() / 4,
            want == flattened(rgba@),
            r@ == want.take(3 * k as int),
        decreases count - k,
    {
        assert(4 * k + 3 < rgba.len());
        let at: usize = 4 * k;
        let a: u8 = rgba[at + 3];
        let red: u8 = blend(rgba[at], a);
        let green: u8 = blend(rgba[at + 1], a);
        let blue: u8 = blend(rgba[at + 2], a);
        let ghost n = 3 * k as int;
        assert(want[n] == red);
        assert(want[n + 1] == green);
        assert(want[n + 2] == blue);
        r.push(red);
        r.push(green);
        r.push(blue);
        assert(want.take(n + 3) =~= want.take(n).push(red).push(green).push(blue));
        k += 1;
    }
    assert(want.take(3 * k as int) =~= want);
    r
}

/// The JPEG of an image: without transparency, which is laid over white.
pub open spec fn jpeg_bytes(p: PictureV, quality: u8) -> Option<Seq<u8>> {
    if p.alpha {
        jpeg_of_rgb(flattened(rgba_of(p)), p.width, p.height, quality)
    } else {
        jpeg_of(p, quality)
    }
}

/// A block with these bytes as its JPEG; the block as it was where there are none.
pub open spec fn jpeg_block(block: ImageBlockV, bytes: Option<Seq<u8>>) -> ImageBlockV {
    match bytes {
        Some(b) => ImageBlockV { media_type: "image/jpeg"@, data: encoded(b) },
        None => block,
    }
}

/// Whether an image may be sent as it is: it is small enough, or it may move.
pub open spec fn stays(f: (u32, u32, bool), media_type: Seq<char>, max_dim: u32) -> bool {
    (f.0 <= max_dim && f.1 <= max_dim) || media_type == "image/gif"@
}

/// Whether a side of `long` pixels became `side` pixels, and one of `short` pixels became `to`
/// pixels, so that their proportion stays to within a pixel.
pub open spec fn in_proportion(long: u32, short: u32, side: u32, to: u32) -> bool {
    &&& (long as int) * (to as int) < (short as int) * (side as int) + long
    &&& (short as int) * (side as int) < (long as int) * (to as int) + long
}

/// Whether an image is what one with this frame may be scaled to so that it fills a square.
pub open spec fn scaled(f: (u32, u32, bool), q: PictureV, side: u32) -> bool {
    &&& q.alpha == f.2
    &&& q.exact
    &&& q.width <= side || q.width == 1
    &&& q.height <= side || q.height == 1
    &&& f.0 > 0 && f.1 > 0 && side > 0 ==> if f.0 >= f.1 {
        q.width == side && in_proportion(f.0, f.1, side, q.height)
    } else {
        q.height == side && in_proportion(f.1, f.0, side, q.width)
    }
}

/// Whether `out` is what a block may become: the block as it was where it cannot be read or may be
/// sent as it is, and else the JPEG of the image scaled down.
pub open spec fn becomes(
    block: ImageBlockV,
    max_dim: u32,
    quality: u8,
    out: ImageBlockV,
) -> bool {
    match decoded(block.data) {
        Ok(raw) => match frame_in(raw) {
            Some(f) => if stays(f, block.media_type, max_dim) {
                out == block
            } else {
                exists|q: PictureV| #[trigger]
                    scaled(f, q, max_dim) && out == jpeg_block(block, jpeg_bytes(q, quality))
            },
            None => out == block,
        },
        Err(_) => out == block,
    }
}

/// The block of the JPEG that was made; the block as it was where none could be made.
pub fn settle_block(block: &ImageBlock, bytes: &Option<Vec<u8>>) -> (r: ImageBlock)
    ensures
        r@ == jpeg_block(
            block@,
            match *bytes {
                Some(b) => Some(b@),
                None => None,
            },
        ),
{
    match bytes {
        Some(b) => ImageBlock { media_type: "image/jpeg".to_owned(), data: base64_encode(b) },
        None => block.clone(),
    }
}

/// The JPEG of an image: without transparency, which is laid over white.
fn encode_picture(img: &image::DynamicImage, quality: u8) -> (r: Option<Vec<u8>>)
    requires
        picture(*img).exact,
    ensures
        match r {
            Some(b) => jpeg_bytes(picture(*img), quality) == Some(b@),
            None => jpeg_bytes(picture(*img), quality) is None,
        },
{
    if image_has_alpha(img) {
        let rgba = rgba_samples(img);
        let rgb = flatten(&rgba);
        let (w, h) = image_size(img);
        write_rgb_jpeg(&rgb, w, h, quality)
    } else {
        write_jpeg(img, quality)
    }
}

/// Makes an image small enough: scales it down so that no side is longer than `max_dim`, and encodes
/// it as JPEG. An image that is small enough, one that may move, and one that cannot be read or
/// encoded stay as they are.
pub fn preprocess_with_options(block: &ImageBlock, max_dim: u32, quality: u8) -> (r: ImageBlock)
    ensures
        becomes(block@, max_dim, quality, r@),
{
    let raw = match base64_decode(block.data.as_str()) {
        Ok(raw) => raw,
        Err(_) => {
            return block.clone();
        },
    };
    let img = match load_image(&raw) {
        Some(img) => img,
        None => {
            return block.clone();
        },
    };
    let (w, h) = image_size(&img);
    if (w <= max_dim && h <= max_dim) || same(block.media_type.as_str(), "image/gif") {
        return block.clone();
    }
    let small = resize_image(&img, max_dim);
    let ghost q = picture(small);
    let bytes = encode_picture(&small, quality);
    let r = settle_block(block, &bytes);
    assert(scaled(frame(picture(img)), q, max_dim) && r@ == jpeg_block(block@, jpeg_bytes(q, quality)));
    r
}

/// Makes an image small enough for the model.
pub fn preprocess(block: &ImageBlock) -> (r: ImageBlock)
    ensures
        becomes(block@, DEFAULT_MAX_DIMENSION, DEFAULT_JPEG_QUALITY, r@),
{
    preprocess_with_options(block, DEFAULT_MAX_DIMENSION, DEFAULT_JPEG_QUALITY)
}

/// Makes some images small enough for the model, one by one.
pub fn preprocess_all(blocks: &Vec<ImageBlock>) -> (r: Vec<ImageBlock>)
    ensures
        r@.len() == blocks@.len(),
        forall|i: int|
            0 <= i < blocks@.len() ==> becomes(
                blocks@[i]@,
                DEFAULT_MAX_DIMENSION,
                DEFAULT_JPEG_QUALITY,
                #[trigger] r@[i]@,
            ),
{
    let mut r: Vec<ImageBlock> = Vec::new();
    let mut i: usize = 0;
    while i < blocks.len()
        invariant
            i <= blocks@.len(),
            r@.len() == i,
            forall|k: int|
                0 <= k < i ==> becomes(
                    blocks@[k]@,
                    DEFAULT_MAX_DIMENSION,
                    DEFAULT_JPEG_QUALITY,
                    #[trigger] r@[k]@,
                ),
        decreases blocks@.len() - i,
    {
        r.push(preprocess(&blocks[i]));
        i += 1;
    }
    r
}

/// A sample that is opaque stays as it is, and one that is fully transparent becomes white.
pub proof fn law_ends_of_opacity(sample: u8)
    ensures
        over_white(sample, 255) == sample,
        over_white(sample, 0) == 255,
{
    lemma_opacity_ends();
    lemma_whole(sample as nat);
    lemma_whole(255);
    lemma_whole(1);
    lemma_whole(0);
    assert(sample as nat * opacity(0) == 0);
}

proof fn lemma_opacity_ends()
    ensures
        opacity(255) == UNIT,
        opacity(0) == 0,
{
    let one = (255 * UNIT as nat) / 255;
    assert(one == UNIT as nat);
    let p = spacing(one);
    lemma_spacing(one);
    let k = lemma_spacing_divides_one(one);
    let top = 2 * 255 * (UNIT as nat) + 255 * p;
    assert(top / (510 * p) == k) by (nonlinear_arith)
        requires
            top == 510 * (k * p) + 255 * p,
            p >= 1,
    ;
    let z = spacing(0);
    assert((0 * UNIT as nat) / 255 == 0);
    assert((2 * 0nat * (UNIT as nat) + 255 * z) / (510 * z) == 0) by (nonlinear_arith)
        requires
            z == 1,
    ;
}

/// A whole number of at most eight bits is a single-precision number.
proof fn lemma_whole(n: nat)
    requires
        n <= 255,
    ensures
        rounded(n * (UNIT as nat)) == n * (UNIT as nat),
{
    let x = n * (UNIT as nat);
    let p = spacing(x);
    lemma_spacing(x);
    let k = lemma_spacing_divides_one(x);
    let q = n * k;
    assert(x == q * p) by (nonlinear_arith)
        requires
            x == n * (k * p),
            q == n * k,
    ;
    assert(x / p == q && x % p == 0) by (nonlinear_arith)
        requires
            x == q * p,
            p >= 1,
    ;
}

/// Whatever a block becomes, it is the block as it was or a JPEG.
pub proof fn law_original_or_jpeg(block: ImageBlockV, max_dim: u32, quality: u8, out: ImageBlockV)
    requires
        becomes(block, max_dim, quality, out),
    ensures
        out == block || out.media_type == "image/jpeg"@,
        block.media_type == "image/gif"@ ==> out == block,
{
}

/// An image that is scaled fits into the square, and its longer side fills it.
pub proof fn law_scaled_images_fit(f: (u32, u32, bool), q: PictureV, side: u32)
    requires
        scaled(f, q, side),
        f.0 > 0,
        f.1 > 0,
        side > 0,
    ensures
        q.width <= side,
        q.height <= side,
        q.width == side || q.height == side,
{
}

/// An image that is small enough, or that is no image, is sent as it is.
pub proof fn law_small_images_stay(
    block: ImageBlockV,
    raw: Seq<u8>,
    max_dim: u32,
    quality: u8,
    out: ImageBlockV,
)
    requires
        becomes(block, max_dim, quality, out),
        decoded(block.data) == Ok::<Seq<u8>, Seq<char>>(raw),
    ensures
        frame_in(raw) is None ==> out == block,
        frame_in(raw) matches Some(f) ==> (f.0 <= max_dim && f.1 <= max_dim ==> out == block),
        frame_in(raw) matches Some(f) ==> (block.media_type == "image/gif"@ ==> out == block),
{
}

/// A picture without transparency is written as it is, and one with it over white.
pub proof fn law_transparency_is_laid_over_white(p: PictureV, quality: u8)
    ensures
        !p.alpha ==> jpeg_bytes(p, quality) == jpeg_of(p, quality),
        p.alpha ==> jpeg_bytes(p, quality) == jpeg_of_rgb(
            flattened(rgba_of(p)),
            p.width,
            p.height,
            quality,
        ),
{
}

/// What could be written anew is sent as that, as a JPEG; what could not is sent as it was.
pub proof fn law_written_images_are_sent(block: ImageBlockV, bytes: Seq<u8>)
    ensures
        jpeg_block(block, Some(bytes)).media_type == "image/jpeg"@,
        jpeg_block(block, Some(bytes)).data == encoded(bytes),
        jpeg_block(block, None) == block,
{
}

/// Laying a picture over white keeps every pixel at its place, with its three colours in order: each
/// comes from its own sample and the opacity of its own pixel.
pub proof fn law_pixels_stay_in_place(
    before: Seq<u8>,
    r: u8,
    g: u8,
    b: u8,
    a: u8,
    n: nat,
)
    requires
        before.len() == 4 * n,
    ensures
        flattened(before + seq![r, g, b, a]) == flattened(before) + seq![
            over_white(r, a),
            over_white(g, a),
            over_white(b, a),
        ],
        flattened(Seq::empty()).len() == 0,
{
    let all = before + seq![r, g, b, a];
    let left = flattened(all);
    let right = flattened(before) + seq![over_white(r, a), over_white(g, a), over_white(b, a)];
    assert(all.len() / 4 * 3 == 3 * n + 3);
    assert(before.len() / 4 * 3 == 3 * n);
    assert forall|i: int| 0 <= i < left.len() implies left[i] == right[i] by {
        if i < 3 * n {
            assert(i / 3 * 4 + 3 < 4 * n);
            assert(all[i / 3 * 4 + i % 3] == before[i / 3 * 4 + i % 3]);
            assert(all[i / 3 * 4 + 3] == before[i / 3 * 4 + 3]);
        } else {
            let j = i - 3 * n;
            assert(i / 3 == n && i % 3 == j);
            assert(all[4 * n as int + j] == seq![r, g, b, a][j]);
            assert(all[4 * n as int + 3] == a);
        }
    }
    assert(left =~= right);
}

proof fn lemma_rounding_is_near(x: nat, j: nat)
    requires
        x < 0x80_0000 * j,
        j >= 1,
    ensures
        x <= rounded(x) + j,
        rounded(x) <= x + j,
{
    lemma_spacing(x);
    let p = spacing(x);
    let q = x / p;
    assert(p <= j) by (nonlinear_arith)
        requires
            p == 1 || x >= 0x80_0000 * p,
            x < 0x80_0000 * j,
            j >= 1,
    ;
    assert(q * p <= x && x < (q + 1) * p && (q + 1) * p == q * p + p) by (nonlinear_arith)
        requires
            p >= 1,
            q == x / p,
    ;
}

proof fn lemma_share_is_near(a: u8)
    ensures
        255 * opacity(a) <= a * UNIT + 0x8000,
        a * UNIT <= 255 * opacity(a) + 0x8000,
{
    let x = (a as nat * UNIT as nat) / 255;
    let p = spacing(x);
    lemma_spacing(x);
    assert(x <= UNIT);
    assert(p <= 256);
    let top = 2 * (a as nat) * (UNIT as nat) + 255 * p;
    let m = top / (510 * p);
    assert(m * (510 * p) <= top && top < (m + 1) * (510 * p)) by (nonlinear_arith)
        requires
            m == top / (510 * p),
            p >= 1,
    ;
    assert(m * (510 * p) == 510 * (m * p) && (m + 1) * (510 * p) == 510 * (m * p) + 510 * p)
        by (nonlinear_arith);
}

/// A sample over white is what lies between the sample and white by its opacity: the weighted mean,
/// cut to a whole number.
pub proof fn law_samples_are_mixed_with_white(sample: u8, a: u8)
    ensures
        255 * over_white(sample, a) <= sample * a + 255 * (255 - a),
        sample * a + 255 * (255 - a) <= 255 * over_white(sample, a) + 255,
{
    let s = sample as nat;
    let share = opacity(a);
    let u = UNIT as nat;
    lemma_opacity(a);
    lemma_share_is_near(a);
    let rest = (u - share) as nat;
    lemma_rounding_is_near(rest, 0x200);
    let left = rounded(rest);
    assert(s * share <= 255 * u) by (nonlinear_arith)
        requires
            s <= 255,
            share <= u,
    ;
    lemma_rounding_is_near(s * share, 0x2_0000);
    lemma_rounding_is_near(255 * left, 0x2_0000);
    let both = rounded(s * share) + rounded(255 * left);
    lemma_rounding_is_near(both, 0x4_0000);
    let sum = rounded(both);
    let exact = s * share + 255 * rest;
    assert(exact - 0xa_0000 <= sum <= exact + 0xa_0000);
    let mean = s * a + 255 * (255 - a);
    let d = 255 * share - a * u;
    assert(-0x8000 <= d <= 0x8000);
    assert(255 * exact == mean * u + (s - 255) * d) by (nonlinear_arith)
        requires
            exact == s * share + 255 * rest,
            rest == u - share,
            mean == s * a + 255 * (255 - a),
            d == 255 * share - a * u,
    ;
    assert(-255 * 0x8000 <= (s - 255) * d <= 255 * 0x8000) by (nonlinear_arith)
        requires
            0 <= s <= 255,
            -0x8000 <= d <= 0x8000,
    ;
    let whole = sum / u;
    assert(whole * u <= sum < (whole + 1) * u) by (nonlinear_arith)
        requires
            u == 0x8000_0000,
            whole == sum / u,
    ;
    assert(255 * whole <= mean && mean <= 255 * whole + 255);
    assert(mean <= 255 * 255) by (nonlinear_arith)
        requires
            mean == s * a + 255 * (255 - a),
            s <= 255,
            a <= 255,
    ;
}

} // verus!
