use vstd::prelude::*;

verus! {

#[verifier::external_type_specification]
#[verifier::external_body]
pub struct ExFont(ril::text::Font);

#[verifier::external_type_specification]
#[verifier::external_body]
pub struct ExRilError(ril::error::Error);

/// A pixel canvas. It holds a ril image; Verus sees it only through
/// `image_width` and `image_height` and the trusted operations below.
/// (ril's own image type is generic over an outside pixel trait, which keeps
/// it from being declared to Verus directly.)
#[verifier::external_body]
pub struct Canvas {
    inner: ril::Image<ril::Rgba>,
}

/// The pixel width of a canvas.
pub uninterp spec fn image_width(im: Canvas) -> u32;

/// The pixel height of a canvas.
pub uninterp spec fn image_height(im: Canvas) -> u32;

/// Whether a byte stream decodes as a PNG image, and the pixel width and
/// height recorded in it: attributes of the PNG byte format, deterministic
/// in the bytes alone. The decoder below reads them; the encoder below
/// writes them from the canvas it serializes.
pub uninterp spec fn png_decodable(bytes: Seq<u8>) -> bool;

pub uninterp spec fn png_width(bytes: Seq<u8>) -> u32;

pub uninterp spec fn png_height(bytes: Seq<u8>) -> u32;

/// The pixel contents of a canvas, as RGBA values keyed by (x, y): one
/// reading of the inner image's pixel buffer. The operations below say how
/// they change it; text drawing is the one operation whose pixel effect is
/// left open, since it depends on the font's glyphs.
pub uninterp spec fn image_pixels(im: Canvas) -> Map<(u32, u32), (u8, u8, u8, u8)>;

/// The pixel contents a PNG byte stream records, keyed by (x, y). PNG is
/// lossless: the encoder below writes exactly the canvas's pixels and the
/// decoder reads them back.
pub uninterp spec fn png_pixels(bytes: Seq<u8>) -> Map<(u32, u32), (u8, u8, u8, u8)>;

/// Relies on ril's Image::new: a width x height canvas with every pixel set
/// to the given color. Zero dimensions would make it panic, and so would a
/// pixel count beyond the coordinate type, whose multiplication it performs.
#[verifier::external_body]
pub(crate) fn img_new(width: u32, height: u32, fill: (u8, u8, u8, u8)) -> (im: Canvas)
    requires
        0 < width,
        0 < height,
        width * height <= 0xffff_ffff,
    ensures
        image_width(im) == width,
        image_height(im) == height,
        forall|x: u32, y: u32|
            x < width && y < height ==> #[trigger] image_pixels(im)[(x, y)] == fill,
{
    Canvas { inner: ril::Image::new(width, height, ril::Rgba::new(fill.0, fill.1, fill.2, fill.3)) }
}

/// Relies on ril's Image::width getter.
#[verifier::external_body]
pub(crate) fn img_width_of(im: &Canvas) -> (w: u32)
    ensures
        w == image_width(*im),
{
    im.inner.width()
}

/// Relies on ril's Image::height getter.
#[verifier::external_body]
pub(crate) fn img_height_of(im: &Canvas) -> (h: u32)
    ensures
        h == image_height(*im),
{
    im.inner.height()
}

/// Relies on ril's Image::set_pixel: writes one pixel in place. Coordinates
/// outside the image would make it panic, so they are ruled out.
#[verifier::external_body]
pub(crate) fn img_set_pixel(im: &mut Canvas, x: u32, y: u32, color: (u8, u8, u8, u8))
    requires
        x < image_width(*old(im)),
        y < image_height(*old(im)),
    ensures
        image_width(*final(im)) == image_width(*old(im)),
        image_height(*final(im)) == image_height(*old(im)),
        image_pixels(*final(im)) == image_pixels(*old(im)).insert((x, y), color),
{
    im.inner.set_pixel(x, y, ril::Rgba::new(color.0, color.1, color.2, color.3));
}

/// Relies on ril's Image::paste: overlays another image at the given offset,
/// clipping whatever falls outside the canvas. The offset plus the pasted
/// image's size must not overflow the coordinate type.
#[verifier::external_body]
pub(crate) fn img_paste(im: &mut Canvas, x: u32, y: u32, other: &Canvas)
    requires
        x + image_width(*other) <= 0xffff_ffff,
        y + image_height(*other) <= 0xffff_ffff,
    ensures
        image_width(*final(im)) == image_width(*old(im)),
        image_height(*final(im)) == image_height(*old(im)),
        forall|px: u32, py: u32|
            px < x || px >= x + image_width(*other) || py < y || py >= y + image_height(*other)
                ==> #[trigger] image_pixels(*final(im))[(px, py)] == image_pixels(
                *old(im),
            )[(px, py)],
{
    im.inner.paste(x, y, &other.inner);
}

/// Relies on ril's TextSegment and Image::draw: rasterizes one run of text
/// at the given position in the given fill color, clipping at the canvas.
#[verifier::external_body]
pub(crate) fn img_draw_text(
    im: &mut Canvas,
    font: &ril::text::Font,
    text: &str,
    x: u32,
    y: u32,
    color: (u8, u8, u8, u8),
)
    ensures
        image_width(*final(im)) == image_width(*old(im)),
        image_height(*final(im)) == image_height(*old(im)),
{
    let segment = ril::TextSegment::new(
        font,
        text,
        ril::Rgba::new(color.0, color.1, color.2, color.3),
    ).with_position(x, y);
    im.inner.draw(&segment);
}

/// Relies on ril's Image::encode with the PNG format, writing to a byte
/// buffer. For an RGBA canvas of nonzero dimensions written into a byte
/// vector the encoder has no failure path left — header parameters are
/// valid, the pixel buffer length matches, and the sink cannot err — so
/// success is promised; the output is a PNG stream recording exactly the
/// canvas's dimensions.
#[verifier::external_body]
pub(crate) fn img_encode_png(im: &Canvas) -> (r: Result<Vec<u8>, ril::error::Error>)
    requires
        0 < image_width(*im),
        0 < image_height(*im),
    ensures
        r is Ok,
        r matches Ok(bytes) ==> png_decodable(bytes@) && png_width(bytes@) == image_width(*im)
            && png_height(bytes@) == image_height(*im),
        r matches Ok(bytes) ==> forall|x: u32, y: u32|
            x < image_width(*im) && y < image_height(*im) ==> #[trigger] png_pixels(
                bytes@,
            )[(x, y)] == image_pixels(*im)[(x, y)],
{
    let mut out: Vec<u8> = Vec::new();
    match im.inner.encode(ril::ImageFormat::Png, &mut out) {
        Ok(()) => Ok(out),
        Err(e) => Err(e),
    }
}

/// Relies on ril's Image::from_reader with the PNG format, decoding a byte
/// buffer: it succeeds exactly on decodable PNG bytes and yields the
/// dimensions they record.
#[verifier::external_body]
pub(crate) fn img_decode_png(bytes: &Vec<u8>) -> (r: Result<Canvas, ril::error::Error>)
    ensures
        r is Ok <==> png_decodable(bytes@),
        r matches Ok(im) ==> image_width(im) == png_width(bytes@) && image_height(im)
            == png_height(bytes@),
        r matches Ok(im) ==> forall|x: u32, y: u32|
            x < image_width(im) && y < image_height(im) ==> #[trigger] image_pixels(im)[(x, y)]
                == png_pixels(bytes@)[(x, y)],
{
    match ril::Image::from_reader(ril::ImageFormat::Png, bytes.as_slice()) {
        Ok(inner) => Ok(Canvas { inner }),
        Err(e) => Err(e),
    }
}

} // verus!
