use vstd::prelude::*;

verus! {

/// How samples are weighted when a bitmap is resized.
#[derive(Clone, Copy, Debug, PartialEq, Eq, Structural)]
pub enum FilterKind {
    Nearest,
    Triangle,
    CatmullRom,
    Gaussian,
    Lanczos3,
}

impl FilterKind {
    /// The filter weighs samples with exactly rounded arithmetic alone, so
    /// that the same input gives the same pixels on every machine. The other
    /// filters call on powers, sines or exponentials, whose last digits the
    /// standard library leaves open.
    pub open spec fn is_reproducible(self) -> bool {
        self is Nearest || self is Triangle
    }
}

/// An image held as rows of RGBA pixels, one byte per channel.
#[derive(Clone, Debug)]
pub struct Bitmap {
    pub width: u32,
    pub height: u32,
    pub data: Vec<u8>,
}

/// One pixel: red, green, blue, alpha.
pub type Pixel = (u8, u8, u8, u8);

/// The pixel at column `x` of row `y` in a row-major RGBA buffer of the
/// given width.
pub open spec fn pixel_in(data: Seq<u8>, width: int, x: int, y: int) -> Pixel {
    let at = (y * width + x) * 4;
    (data[at], data[at + 1], data[at + 2], data[at + 3])
}

impl Bitmap {
    /// The buffer holds exactly `width * height` pixels.
    pub open spec fn wf(&self) -> bool {
        self.data@.len() == self.width as int * self.height as int * 4
    }

    pub open spec fn pixel(&self, x: int, y: int) -> Pixel {
        pixel_in(self.data@, self.width as int, x, y)
    }

    /// Every pixel of the bitmap is `p`.
    pub open spec fn is_solid(&self, p: Pixel) -> bool {
        forall|x: int, y: int|
            0 <= x < self.width && 0 <= y < self.height ==> #[trigger] self.pixel(x, y) == p
    }

    /// Width, height and pixel bytes.
    pub open spec fn content(&self) -> (u32, u32, Seq<u8>) {
        (self.width, self.height, self.data@)
    }

    /// Both dimensions are at least one.
    pub open spec fn has_pixels(&self) -> bool {
        self.width > 0 && self.height > 0
    }

    /// A bitmap over a buffer, if the buffer has the length that the
    /// dimensions ask for.
    pub fn new(width: u32, height: u32, data: Vec<u8>) -> (r: Option<Bitmap>)
        ensures
            match r {
                Some(b) => b.wf() && b.width == width && b.height == height && b.data == data,
                None => data@.len() != width as int * height as int * 4,
            },
    {
        proof {
            assert(0 <= width as int * height as int <= 0xFFFF_FFFF * 0xFFFF_FFFF)
                by (nonlinear_arith)
                requires
                    0 <= width <= 0xFFFF_FFFF,
                    0 <= height <= 0xFFFF_FFFF,
            ;
        }
        let expected: u128 = (width as u128) * (height as u128) * 4;
        if data.len() as u128 == expected {
            Some(Bitmap { width, height, data })
        } else {
            None
        }
    }
}

/// Whether a `width` by `height` RGBA buffer can be addressed on this machine.
pub open spec fn fits_memory(width: u32, height: u32) -> bool {
    width as int * height as int * 4 <= usize::MAX as int
}

/// Whether a bitmap `source_width` wide can be scaled to `nwidth` by
/// `nheight`: the result and the intermediate image, which has the source's
/// width and the new height, can both be addressed.
pub open spec fn resize_fits(source_width: u32, nwidth: u32, nheight: u32) -> bool {
    fits_memory(nwidth, nheight) && fits_memory(source_width, nheight)
}

/// The largest edge at which every filter is applied. The nearest-neighbour
/// filter weighs every sample alike; the others norm their weights by the sum
/// of them, which single precision can round to nothing on longer edges.
pub const WEIGHTED_EDGE_LIMIT: u32 = 0x10_0000;

/// Whether the filter can be applied from a `width` by `height` source to a
/// `nwidth` by `nheight` target: the nearest-neighbour filter always, the
/// others where no edge is beyond `WEIGHTED_EDGE_LIMIT`.
pub open spec fn filter_admits(
    filter: FilterKind,
    width: u32,
    height: u32,
    nwidth: u32,
    nheight: u32,
) -> bool {
    filter is Nearest || (width <= WEIGHTED_EDGE_LIMIT && height <= WEIGHTED_EDGE_LIMIT && nwidth
        <= WEIGHTED_EDGE_LIMIT && nheight <= WEIGHTED_EDGE_LIMIT)
}

/// Tests whether the filter can be applied between the two sizes.
pub fn filter_fits(filter: FilterKind, width: u32, height: u32, nwidth: u32, nheight: u32) -> (fits:
    bool)
    ensures
        fits == filter_admits(filter, width, height, nwidth, nheight),
{
    match filter {
        FilterKind::Nearest => true,
        _ => width <= WEIGHTED_EDGE_LIMIT && height <= WEIGHTED_EDGE_LIMIT && nwidth
            <= WEIGHTED_EDGE_LIMIT && nheight <= WEIGHTED_EDGE_LIMIT,
    }
}

/// Tests whether a `width` by `height` RGBA buffer can be addressed.
pub fn buffer_fits(width: u32, height: u32) -> (fits: bool)
    ensures
        fits == fits_memory(width, height),
{
    proof {
        assert(0 <= width as int * height as int <= 0xFFFF_FFFF * 0xFFFF_FFFF) by (nonlinear_arith)
            requires
                0 <= width <= 0xFFFF_FFFF,
                0 <= height <= 0xFFFF_FFFF,
        ;
    }
    let area: u64 = (width as u64) * (height as u64);
    let limit: u64 = (usize::MAX / 4) as u64;
    area <= limit
}

/// What the image codec makes of `bytes`: width, height and RGBA pixels of the
/// decoded image, or `None` where the bytes are no image it recognises.
pub uninterp spec fn decoded_image(bytes: Seq<u8>) -> Option<(u32, u32, Seq<u8>)>;

/// The pixels of a `width` by `height` bitmap scaled to exactly `nwidth` by
/// `nheight` with a reproducible filter.
pub uninterp spec fn resized_exact(
    data: Seq<u8>,
    width: u32,
    height: u32,
    nwidth: u32,
    nheight: u32,
    filter: FilterKind,
) -> Seq<u8>;

/// The pixels of a bottom bitmap after a top bitmap was composited onto it
/// with the top's upper left corner at `(x, y)`.
pub uninterp spec fn overlaid(
    bottom: Seq<u8>,
    bottom_width: u32,
    bottom_height: u32,
    top: Seq<u8>,
    top_width: u32,
    top_height: u32,
    x: u32,
    y: u32,
) -> Seq<u8>;

/// `image::ImageError`, carried from the decoder to the text of the error.
#[verifier::external_type_specification]
#[verifier::external_body]
pub struct ExImageError(image::ImageError);

/// `image::load_from_memory`, followed by a conversion to RGBA. The format is
/// guessed from the bytes. The result is the codec's decoding of the bytes,
/// with a buffer of four bytes per pixel; an error exactly where the codec
/// recognises no image.
#[verifier::external_body]
pub(crate) fn decode(bytes: &Vec<u8>) -> (r: Result<Bitmap, image::ImageError>)
    ensures
        match r {
            Ok(b) => b.wf() && decoded_image(bytes@) == Some((b.width, b.height, b.data@)),
            Err(_) => decoded_image(bytes@).is_none(),
        },
{
    let rgba = image::load_from_memory(bytes.as_slice())?.into_rgba8();
    Ok(Bitmap { width: rgba.width(), height: rgba.height(), data: rgba.into_raw() })
}

/// The PNG file that the codec writes for a `width` by `height` RGBA image,
/// or `None` where it reports an error.
pub uninterp spec fn png_encoded(width: u32, height: u32, data: Seq<u8>) -> Option<Seq<u8>>;

/// `image::DynamicImage::write_to` with the PNG format, on an RGBA image and
/// into a byte buffer: the bytes written, or the codec's error.
#[verifier::external_body]
pub(crate) fn encode_png(image: &Bitmap) -> (r: Result<Vec<u8>, image::ImageError>)
    requires
        image.wf(),
    ensures
        match r {
            Ok(bytes) => png_encoded(image.width, image.height, image.data@) == Some(bytes@),
            Err(_) => png_encoded(image.width, image.height, image.data@).is_none(),
        },
{
    let src = image::RgbaImage::from_raw(image.width, image.height, image.data.clone()).unwrap();
    let mut bytes: Vec<u8> = Vec::new();
    image::DynamicImage::ImageRgba8(src).write_to(&mut bytes, image::ImageOutputFormat::Png)?;
    Ok(bytes)
}

/// The `Display` text of an `image::ImageError`. Nothing is claimed of it.
#[verifier::external_body]
pub(crate) fn image_error_text(error: &image::ImageError) -> (text: String) {
    error.to_string()
}

/// `image::imageops::resize` on an RGBA buffer: the result has exactly the
/// dimensions asked for, and with a reproducible filter its pixels are a
/// function of the arguments. Left out: an empty source, a target or an
/// intermediate image too large to address, and, for the filters that norm
/// their weights, edges so long that the weights of a pixel can sum to
/// nothing, on which the crate stops.
#[verifier::external_body]
pub(crate) fn resize_exact(source: &Bitmap, nwidth: u32, nheight: u32, filter: FilterKind) -> (r: Bitmap)
    requires
        source.wf(),
        source.has_pixels(),
        resize_fits(source.width, nwidth, nheight),
        filter_admits(filter, source.width, source.height, nwidth, nheight),
    ensures
        r.wf(),
        r.width == nwidth,
        r.height == nheight,
        filter.is_reproducible() ==> r.data@ == resized_exact(
            source.data@,
            source.width,
            source.height,
            nwidth,
            nheight,
            filter,
        ),
{
    let kind = match filter {
        FilterKind::Nearest => image::imageops::FilterType::Nearest,
        FilterKind::Triangle => image::imageops::FilterType::Triangle,
        FilterKind::CatmullRom => image::imageops::FilterType::CatmullRom,
        FilterKind::Gaussian => image::imageops::FilterType::Gaussian,
        FilterKind::Lanczos3 => image::imageops::FilterType::Lanczos3,
    };
    let src = image::RgbaImage::from_raw(source.width, source.height, source.data.clone()).unwrap();
    let out = image::imageops::resize(&src, nwidth, nheight, kind);
    Bitmap { width: out.width(), height: out.height(), data: out.into_raw() }
}

/// Whether a rectangle of the given size with its upper left corner at
/// `corner` covers the pixel `(x, y)`.
pub open spec fn covers(corner: (u32, u32), size: (u32, u32), x: int, y: int) -> bool {
    corner.0 <= x < corner.0 + size.0 && corner.1 <= y < corner.1 + size.1
}

/// `image::imageops::overlay`: the bottom keeps its dimensions and its pixels
/// become the composite, which differs from the bottom only where the top
/// covers it.
#[verifier::external_body]
pub(crate) fn overlay(bottom: &mut Bitmap, top: &Bitmap, x: u32, y: u32)
    requires
        old(bottom).wf(),
        top.wf(),
    ensures
        final(bottom).wf(),
        final(bottom).width == old(bottom).width,
        final(bottom).height == old(bottom).height,
        final(bottom).data@ == overlaid(
            old(bottom).data@,
            old(bottom).width,
            old(bottom).height,
            top.data@,
            top.width,
            top.height,
            x,
            y,
        ),
        forall|px: int, py: int|
            0 <= px < old(bottom).width && 0 <= py < old(bottom).height && !covers(
                (x, y),
                (top.width, top.height),
                px,
                py,
            ) ==> #[trigger] final(bottom).pixel(px, py) == old(bottom).pixel(px, py),
{
    let data = std::mem::take(&mut bottom.data);
    let mut base = image::RgbaImage::from_raw(bottom.width, bottom.height, data).unwrap();
    let layer = image::RgbaImage::from_raw(top.width, top.height, top.data.clone()).unwrap();
    image::imageops::overlay(&mut base, &layer, x, y);
    bottom.data = base.into_raw();
}

/// A bitmap of the given size with every pixel `color`, fully opaque.
pub fn fill_color(color: [u8; 3], size: (u32, u32)) -> (img: Bitmap)
    ensures
        img.wf(),
        img.width == size.0,
        img.height == size.1,
        img.is_solid((color[0], color[1], color[2], 255u8)),
{
    let mut data: Vec<u8> = Vec::new();
    let mut y: u32 = 0;
    while y < size.1
        invariant
            y <= size.1,
            data@.len() == y as int * size.0 as int * 4,
            forall|i: int, j: int|
                0 <= i < size.0 && 0 <= j < y ==> #[trigger] pixel_in(data@, size.0 as int, i, j)
                    == (color[0], color[1], color[2], 255u8),
        decreases size.1 - y,
    {
        let mut x: u32 = 0;
        while x < size.0
            invariant
                y < size.1,
                x <= size.0,
                data@.len() == (y as int * size.0 as int + x as int) * 4,
                forall|i: int, j: int|
                    0 <= i < size.0 && 0 <= j < y ==> #[trigger] pixel_in(
                        data@,
                        size.0 as int,
                        i,
                        j,
                    ) == (color[0], color[1], color[2], 255u8),
                forall|i: int|
                    0 <= i < x ==> #[trigger] pixel_in(data@, size.0 as int, i, y as int) == (
                        color[0],
                        color[1],
                        color[2],
                        255u8,
                    ),
            decreases size.0 - x,
        {
            let ghost before = data@;
            data.push(color[0]);
            data.push(color[1]);
            data.push(color[2]);
            data.push(255u8);
            proof {
                let w = size.0 as int;
                assert(before.len() == (y as int * w + x as int) * 4);
                assert forall|i: int, j: int| 0 <= i < w && 0 <= j < y implies #[trigger] pixel_in(
                    data@,
                    w,
                    i,
                    j,
                ) == (color[0], color[1], color[2], 255u8) by {
                    lemma_pixel_offset(w, i, j, x as int, y as int);
                    assert(pixel_in(before, w, i, j) == (color[0], color[1], color[2], 255u8));
                }
                assert forall|i: int| 0 <= i < x + 1 implies #[trigger] pixel_in(
                    data@,
                    w,
                    i,
                    y as int,
                ) == (color[0], color[1], color[2], 255u8) by {
                    if i < x {
                        assert(pixel_in(before, w, i, y as int) == (
                            color[0],
                            color[1],
                            color[2],
                            255u8,
                        ));
                    }
                }
            }
            x = x + 1;
        }
        proof {
            assert((y as int * size.0 as int + size.0 as int) * 4 == (y as int + 1) * size.0 as int
                * 4) by (nonlinear_arith);
        }
        y = y + 1;
    }
    proof {
        assert(y as int * size.0 as int * 4 == size.0 as int * size.1 as int * 4)
            by (nonlinear_arith)
            requires
                y == size.1,
        ;
    }
    Bitmap { width: size.0, height: size.1, data }
}

/// A pixel of an earlier row lies wholly before any pixel of a later row.
proof fn lemma_pixel_offset(w: int, i: int, j: int, x: int, y: int)
    requires
        0 <= i < w,
        0 <= j < y,
        0 <= x,
    ensures
        0 <= (j * w + i) * 4,
        (j * w + i) * 4 + 3 < (y * w + x) * 4,
{
    assert(j * w + i < y * w + x && 0 <= j * w + i) by (nonlinear_arith)
        requires
            0 <= i < w,
            0 <= j < y,
            0 <= x,
    ;
}

} // verus!
