//! A screen picture: scaled down, without transparency, as JPEG.
use vstd::prelude::*;
use vstd::string::*;

use crate::media::{FrameEncoding, VideoFrame};

use super::engine::MediaError;

verus! {

/// A picture with four bytes for each pixel, row by row: red, green, blue and opacity.
#[derive(Debug, PartialEq, Eq)]
pub struct RgbaPicture {
    /// Columns.
    pub width: u32,
    /// Rows.
    pub height: u32,
    /// The bytes.
    pub data: Vec<u8>,
}

/// An [`RgbaPicture`] with its bytes as a sequence.
pub struct PictureView {
    /// Columns.
    pub width: u32,
    /// Rows.
    pub height: u32,
    /// The bytes.
    pub data: Seq<u8>,
}

impl View for RgbaPicture {
    type V = PictureView;

    open spec fn view(&self) -> PictureView {
        PictureView { width: self.width, height: self.height, data: self.data@ }
    }
}

/// The most columns and rows that are scaled: up to there, every pixel's middle has an exact
/// position in single precision.
pub const MAX_EDGE: u32 = 0x40_0000;

impl PictureView {
    /// Whether the bytes are those of so many pixels.
    pub open spec fn wf(self) -> bool {
        self.data.len() == 4 * self.width * self.height
    }

    /// Whether the picture, where its longer edge is above `bound`, can be scaled down.
    pub open spec fn scales_to(self, bound: u32) -> bool {
        longest(self.width, self.height) > bound ==> self.width <= MAX_EDGE && self.height
            <= MAX_EDGE
    }
}

/// The picture that `image` makes of another at most so wide and so high, as
/// `DynamicImage::resize` with its triangle filter has it.
pub uninterp spec fn picture_within(
    width: u32,
    height: u32,
    data: Seq<u8>,
    max_width: u32,
    max_height: u32,
) -> (u32, u32, Seq<u8>);

/// A bound on an edge: a picture has at least one pixel each way.
pub open spec fn edge(bound: u32) -> u32 {
    if bound >= 1 {
        bound
    } else {
        1
    }
}

/// `DynamicImage::resize` with the triangle filter, on a picture with opacity: a picture within the
/// bounds, at least one pixel each way, with its bytes in full. How large it is within them and
/// which bytes it has is left to the name.
#[verifier::external_body]
fn resize(picture: &RgbaPicture, max_width: u32, max_height: u32) -> (r: RgbaPicture)
    requires
        picture@.wf(),
        picture.width <= MAX_EDGE,
        picture.height <= MAX_EDGE,
        max_width <= picture.width,
        max_height <= picture.height,
        max_width < picture.width || max_height < picture.height,
    ensures
        r@.wf(),
        1 <= r.width <= edge(max_width),
        1 <= r.height <= edge(max_height),
        (r.width, r.height, r.data@) == picture_within(
            picture.width,
            picture.height,
            picture.data@,
            max_width,
            max_height,
        ),
{
    let image = image::RgbaImage::from_raw(picture.width, picture.height, picture.data.clone())
        .unwrap_or_default();
    let scaled = image::DynamicImage::ImageRgba8(image)
        .resize(max_width, max_height, image::imageops::FilterType::Triangle)
        .into_rgba8();
    let (width, height) = scaled.dimensions();
    RgbaPicture { width, height, data: scaled.into_raw() }
}

/// The bytes of a picture without the opacity of its pixels.
pub open spec fn opaque(data: Seq<u8>) -> Seq<u8> {
    Seq::new((data.len() / 4 * 3) as nat, |i: int| data[i / 3 * 4 + i % 3])
}

/// `DynamicImage::to_rgb8` on a picture with opacity: the same pixels without it.
#[verifier::external_body]
fn to_rgb(picture: &RgbaPicture) -> (r: Vec<u8>)
    requires
        picture@.wf(),
    ensures
        r@ == opaque(picture.data@),
{
    let image = image::RgbaImage::from_raw(picture.width, picture.height, picture.data.clone())
        .unwrap_or_default();
    image::DynamicImage::ImageRgba8(image).to_rgb8().into_raw()
}

/// What `JpegEncoder` makes of a picture: its bytes, or why it refuses it.
pub uninterp spec fn jpeg_of(rgb: Seq<u8>, width: u32, height: u32, quality: u8) -> Result<
    Seq<u8>,
    Seq<char>,
>;

/// The view of what an encoder gives.
pub open spec fn encoded_view(r: Result<Vec<u8>, String>) -> Result<Seq<u8>, Seq<char>> {
    match r {
        Ok(bytes) => Ok(bytes@),
        Err(why) => Err(why@),
    }
}

/// `JpegEncoder::encode_image` at a quality, into a vector: it gives the bytes exactly for pictures
/// of 1 to 65535 pixels each way, and refuses any other. Which bytes and which words is left to the
/// name.
#[verifier::external_body]
fn encode_jpeg(rgb: Vec<u8>, width: u32, height: u32, quality: u8) -> (r: Result<Vec<u8>, String>)
    requires
        rgb@.len() == 3 * width * height,
    ensures
        encoded_view(r) == jpeg_of(rgb@, width, height, quality),
        r is Ok == (1 <= width <= 65535 && 1 <= height <= 65535),
{
    let image = image::RgbImage::from_raw(width, height, rgb).unwrap_or_default();
    let mut data: Vec<u8> = Vec::new();
    let mut encoder = image::codecs::jpeg::JpegEncoder::new_with_quality(&mut data, quality);
    let outcome = encoder.encode_image(&image);
    match outcome {
        Ok(()) => Ok(data),
        Err(e) => Err(e.to_string()),
    }
}

/// The longer edge of a picture.
pub open spec fn longest(width: u32, height: u32) -> u32 {
    if width >= height {
        width
    } else {
        height
    }
}

/// The size that a picture is scaled to for its longer edge to become `bound`: the shorter one in
/// proportion, fractions cut off.
pub open spec fn scaled_size(width: u32, height: u32, bound: u32) -> (u32, u32) {
    if width >= height {
        (bound, (height * bound / width as int) as u32)
    } else {
        ((width * bound / height as int) as u32, bound)
    }
}

/// A picture whose longer edge is not above `bound`: scaled down where it was.
pub open spec fn shrunk(p: PictureView, bound: u32) -> PictureView {
    if longest(p.width, p.height) > bound {
        let (max_width, max_height) = scaled_size(p.width, p.height, bound);
        let (width, height, data) = picture_within(
            p.width,
            p.height,
            p.data,
            max_width,
            max_height,
        );
        PictureView { width, height, data }
    } else {
        p
    }
}

/// In proportion, the shorter edge gets no longer than it was and no longer than the longer one.
proof fn lemma_in_proportion(short: int, long: int, bound: int)
    requires
        0 <= short <= long,
        0 <= bound < long,
    ensures
        0 <= short * bound / long <= bound,
        short * bound / long <= short,
{
    assert(0 <= short * bound <= long * bound && short * bound <= short * long) by (nonlinear_arith)
        requires
            0 <= short <= long,
            0 <= bound < long,
    ;
    assert(0 <= short * bound / long <= bound && short * bound / long <= short)
        by (nonlinear_arith)
        requires
            0 <= short * bound <= long * bound,
            short * bound <= short * long,
            long > 0,
    ;
}

/// The shorter edge in proportion to a longer one that becomes `bound`.
fn in_proportion(short: u32, long: u32, bound: u32) -> (r: u32)
    requires
        short <= long,
        bound < long,
    ensures
        r == short * bound / long as int,
        r <= bound,
        r <= short,
{
    proof {
        lemma_in_proportion(short as int, long as int, bound as int);
        assert(short * bound <= u64::MAX) by (nonlinear_arith)
            requires
                0 <= short <= u32::MAX,
                0 <= bound <= u32::MAX,
        ;
    }
    (short as u64 * bound as u64 / long as u64) as u32
}

/// A picture whose longer edge is not above `bound`: scaled down where it was.
pub fn shrink(picture: RgbaPicture, bound: u32) -> (r: RgbaPicture)
    requires
        picture@.wf(),
        picture@.scales_to(bound),
    ensures
        r@.wf(),
        r@ == shrunk(picture@, bound),
        r.width <= edge(bound),
        r.height <= edge(bound),
        longest(picture.width, picture.height) > bound ==> 1 <= r.width && 1 <= r.height,
{
    if picture.width > bound || picture.height > bound {
        if picture.width >= picture.height {
            let height: u32 = in_proportion(picture.height, picture.width, bound);
            resize(&picture, bound, height)
        } else {
            let width: u32 = in_proportion(picture.width, picture.height, bound);
            resize(&picture, width, bound)
        }
    } else {
        picture
    }
}

/// A picture of the screen as a frame for the session: its longer edge not above `max_width`,
/// without opacity, as JPEG of the given quality.
pub fn encode_frame(picture: RgbaPicture, max_width: u32, quality: u8) -> (r: Result<
    VideoFrame,
    MediaError,
>)
    requires
        picture@.wf(),
        picture@.scales_to(max_width),
    ensures
        ({
            let p = shrunk(picture@, max_width);
            &&& match jpeg_of(opaque(p.data), p.width, p.height, quality) {
                Ok(bytes) => r matches Ok(f) && f.width == p.width && f.height == p.height
                    && f.encoding == FrameEncoding::Jpeg && f.data@ == bytes,
                Err(why) => r matches Err(MediaError::Backend(w)) && w@ == why,
            }
            &&& r is Ok == (1 <= p.width <= 65535 && 1 <= p.height <= 65535)
        }),
        longest(picture.width, picture.height) > max_width && max_width <= 65535 ==> r is Ok,
        r matches Ok(f) ==> f.width <= edge(max_width) && f.height <= edge(max_width),
{
    let small: RgbaPicture = shrink(picture, max_width);
    let rgb: Vec<u8> = to_rgb(&small);
    proof {
        let n = small.width * small.height;
        assert(4 * small.width * small.height == 4 * n && 3 * small.width * small.height == 3 * n)
            by (nonlinear_arith)
            requires
                n == small.width * small.height,
        ;
    }
    let (width, height): (u32, u32) = (small.width, small.height);
    frame_of(encode_jpeg(rgb, width, height, quality), width, height)
}

/// The frame of a picture that was encoded, or the error where it was not.
pub fn frame_of(encoded: Result<Vec<u8>, String>, width: u32, height: u32) -> (r: Result<
    VideoFrame,
    MediaError,
>)
    ensures
        match encoded {
            Ok(bytes) => r matches Ok(f) && f.width == width && f.height == height && f.encoding
                == FrameEncoding::Jpeg && f.data == bytes,
            Err(why) => r matches Err(MediaError::Backend(w)) && w == why,
        },
{
    match encoded {
        Ok(data) => Ok(VideoFrame { width, height, encoding: FrameEncoding::Jpeg, data }),
        Err(why) => Err(MediaError::Backend(why)),
    }
}

/// A picture is scaled so that its longer edge becomes the bound and the other one keeps the proportion,
/// fractions cut off; so neither edge grows.
pub proof fn law_scaled_in_proportion(width: u32, height: u32, bound: u32)
    requires
        longest(width, height) > bound,
    ensures
        longest(width, height) == width || longest(width, height) == height,
        longest(width, height) >= width,
        longest(width, height) >= height,
        width >= height ==> scaled_size(width, height, bound).0 == bound,
        width >= height ==> scaled_size(width, height, bound).1 * width <= height * bound
            < (scaled_size(width, height, bound).1 + 1) * width,
        width < height ==> scaled_size(width, height, bound).1 == bound,
        width < height ==> scaled_size(width, height, bound).0 * height <= width * bound
            < (scaled_size(width, height, bound).0 + 1) * height,
{
    let (s, l, b) = if width >= height {
        (height as int, width as int, bound as int)
    } else {
        (width as int, height as int, bound as int)
    };
    let q = s * b / l;
    assert(q * l <= s * b < (q + 1) * l && 0 <= q <= b) by (nonlinear_arith)
        requires
            q == s * b / l,
            l > 0,
            0 <= s <= l,
            b >= 0,
    ;
    assert(height * bound == s * b || width * bound == s * b);
}

/// A picture within the bound stays as it is; a larger one becomes what scaling to that size makes of
/// all its bytes.
pub proof fn law_only_large_pictures_shrink(p: PictureView, bound: u32)
    ensures
        p.width <= bound && p.height <= bound ==> shrunk(p, bound) == p,
        p.width > bound || p.height > bound ==> ({
            let (w, h) = scaled_size(p.width, p.height, bound);
            let s = shrunk(p, bound);
            (s.width, s.height, s.data) == picture_within(p.width, p.height, p.data, w, h)
        }),
{
}

/// Without its opacity a picture has three bytes for each pixel: red, green and blue as they were.
pub proof fn law_pixels_keep_their_color(data: Seq<u8>, pixel: int, part: int)
    requires
        0 <= pixel < data.len() as int / 4,
        0 <= part < 3,
    ensures
        opaque(data).len() == 3 * (data.len() as int / 4),
        opaque(data)[3 * pixel + part] == data[4 * pixel + part],
{
}

/// A bound on an edge lets at least one pixel through.
pub proof fn law_edges_are_not_empty(bound: u32)
    ensures
        edge(0) == 1,
        bound > 0 ==> edge(bound) == bound,
{
}

} // verus!
