use vstd::prelude::*;

verus! {

// ---------------------------------------------------------------------------
// RGBA rasters, four bytes a pixel, rows top to bottom
// ---------------------------------------------------------------------------

/// Side of the square raster an application icon is drawn into.
pub const NODE_ICON_RASTER_PX: u32 = 64;

/// An RGBA image with 8 bits a channel, row by row.
#[derive(Clone, Debug)]
pub struct RgbaPixels {
    pub width: u32,
    pub height: u32,
    pub data: Vec<u8>,
}

/// Number of bytes of a `width` x `height` raster.
pub open spec fn byte_len(width: u32, height: u32) -> int {
    4 * (width as int) * (height as int)
}

impl RgbaPixels {
    /// The buffer holds exactly the pixels.
    pub open spec fn wf(&self) -> bool {
        self.data@.len() == byte_len(self.width, self.height)
    }

    /// Byte `c` (0 red .. 3 alpha) of pixel `(x, y)`.
    pub open spec fn byte_at(&self, x: int, y: int, c: int) -> u8 {
        self.data@[4 * (y * self.width + x) + c]
    }

    /// A raster of `width` x `height` pixels, each `px`.
    pub fn from_pixel(width: u32, height: u32, px: [u8; 4]) -> (r: RgbaPixels)
        requires
            byte_len(width, height) <= usize::MAX,
        ensures
            r.wf(),
            r.width == width,
            r.height == height,
            forall|k: int| 0 <= k < r.data@.len() ==> #[trigger] r.data@[k] == px@[k % 4],
    {
        proof {
            assert((width as int) * (height as int) <= usize::MAX) by (nonlinear_arith)
                requires
                    4 * (width as int) * (height as int) <= usize::MAX,
            ;
        }
        let n: usize = (width as usize) * (height as usize);
        proof {
            assert(byte_len(width, height) == 4 * (n as int)) by (nonlinear_arith)
                requires
                    n == (width as int) * (height as int),
            ;
        }
        let mut data: Vec<u8> = Vec::new();
        let mut i: usize = 0;
        while i < n
            invariant
                i <= n,
                4 * (n as int) <= usize::MAX,
                data@.len() == 4 * i,
                forall|k: int| 0 <= k < data@.len() ==> #[trigger] data@[k] == px@[k % 4],
            decreases n - i,
        {
            data.push(px[0]);
            data.push(px[1]);
            data.push(px[2]);
            data.push(px[3]);
            proof {
                assert forall|k: int| 0 <= k < data@.len() implies #[trigger] data@[k] == px@[k
                    % 4] by {
                    if k >= 4 * i {
                        assert(k % 4 == k - 4 * i);
                    }
                }
            }
            i = i + 1;
        }
        RgbaPixels { width, height, data }
    }

    /// A transparent black raster.
    pub fn new(width: u32, height: u32) -> (r: RgbaPixels)
        requires
            byte_len(width, height) <= usize::MAX,
        ensures
            r.wf(),
            r.width == width,
            r.height == height,
            forall|k: int| 0 <= k < r.data@.len() ==> #[trigger] r.data@[k] == 0,
    {
        let r: RgbaPixels = RgbaPixels::from_pixel(width, height, [0u8, 0u8, 0u8, 0u8]);
        proof {
            assert forall|k: int| 0 <= k < r.data@.len() implies #[trigger] r.data@[k] == 0 by {
                assert(r.data@[k] == [0u8, 0u8, 0u8, 0u8]@[k % 4]);
            }
        }
        r
    }

    /// The four bytes of pixel `(x, y)`.
    pub fn get_pixel(&self, x: u32, y: u32) -> (r: [u8; 4])
        requires
            self.wf(),
            x < self.width,
            y < self.height,
        ensures
            forall|c: int| 0 <= c < 4 ==> #[trigger] r@[c] == self.byte_at(x as int, y as int, c),
    {
        proof {
            assert((y as int) * (self.width as int) + (x as int) < (self.width as int) * (
            self.height as int)) by (nonlinear_arith)
                requires
                    x < self.width,
                    y < self.height,
            ;
            assert((y as int) * (self.width as int) <= (y as int) * (self.width as int) + (
            x as int));
            assert(4 * ((y as int) * (self.width as int) + (x as int)) + 3 < byte_len(
                self.width,
                self.height,
            )) by (nonlinear_arith)
                requires
                    (y as int) * (self.width as int) + (x as int) < (self.width as int) * (
                    self.height as int),
            ;
        }
        let len: usize = self.data.len();
        let base: usize = 4 * ((y as usize) * (self.width as usize) + (x as usize));
        [self.data[base], self.data[base + 1], self.data[base + 2], self.data[base + 3]]
    }
}

// ---------------------------------------------------------------------------
// Recolouring and unpremultiplying
// ---------------------------------------------------------------------------

/// Alpha of a tinted pixel: the pixel's alpha scaled by the tint's.
pub open spec fn tinted_alpha(alpha: u8, tint_alpha: u8) -> int {
    (alpha as int) * (tint_alpha as int) / 255
}

/// A pixel after tinting an alpha mask with `rgba`: transparent pixels
/// stay as they are; the others take the tint's colour, premultiplied by
/// the new alpha.
pub open spec fn tint_byte(old: Seq<u8>, k: int, rgba: Seq<u8>) -> u8 {
    let base = k - k % 4;
    let a = old[base + 3];
    if a == 0 {
        old[k]
    } else {
        let ta = tinted_alpha(a, rgba[3]);
        if k % 4 == 3 {
            ta as u8
        } else {
            ((rgba[k % 4] as int) * ta / 255) as u8
        }
    }
}

/// Recolours an alpha mask: every visible pixel takes the colour `rgba`,
/// its alpha scaled by the colour's, the colour premultiplied by the new
/// alpha (the compositor blends premultiplied textures).
pub fn tint_alpha_mask_image(image: &mut RgbaPixels, rgba: [u8; 4])
    requires
        old(image).wf(),
    ensures
        final(image).wf(),
        final(image).width == old(image).width,
        final(image).height == old(image).height,
        forall|k: int|
            0 <= k < final(image).data@.len() ==> #[trigger] final(image).data@[k] == tint_byte(
                old(image).data@,
                k,
                rgba@,
            ),
{
    let ghost orig = image.data@;
    proof {
        let m: int = (image.width as int) * (image.height as int);
        assert(byte_len(image.width, image.height) == 4 * m) by (nonlinear_arith)
            requires
                m == (image.width as int) * (image.height as int),
        ;
        assert(orig.len() == 4 * m);
        assert(orig.len() % 4 == 0);
    }
    let total: usize = image.data.len();
    let n: usize = total / 4;
    let mut i: usize = 0;
    while i < n
        invariant
            i <= n,
            n * 4 == orig.len(),
            orig.len() <= usize::MAX,
            image.data@.len() == orig.len(),
            image.width == old(image).width,
            image.height == old(image).height,
            orig == old(image).data@,
            forall|k: int| 0 <= k < 4 * i ==> #[trigger] image.data@[k] == tint_byte(orig, k, rgba@),
            forall|k: int| 4 * i <= k < orig.len() ==> #[trigger] image.data@[k] == orig[k],
        decreases n - i,
    {
        let base: usize = 4 * i;
        let alpha: u16 = image.data[base + 3] as u16;
        if alpha != 0 {
            proof {
                assert((alpha as int) * (rgba[3] as int) <= 255 * 255) by (nonlinear_arith)
                    requires
                        alpha <= 255,
                        rgba[3] <= 255,
                ;
            }
            let ta: u8 = ((alpha * rgba[3] as u16) / 255) as u8;
            proof {
                assert((rgba[0] as int) * (ta as int) <= 255 * 255) by (nonlinear_arith)
                    requires
                        rgba[0] <= 255,
                        ta <= 255,
                ;
                assert((rgba[1] as int) * (ta as int) <= 255 * 255) by (nonlinear_arith)
                    requires
                        rgba[1] <= 255,
                        ta <= 255,
                ;
                assert((rgba[2] as int) * (ta as int) <= 255 * 255) by (nonlinear_arith)
                    requires
                        rgba[2] <= 255,
                        ta <= 255,
                ;
            }
            let r: u8 = ((rgba[0] as u16 * ta as u16) / 255) as u8;
            let g: u8 = ((rgba[1] as u16 * ta as u16) / 255) as u8;
            let b: u8 = ((rgba[2] as u16 * ta as u16) / 255) as u8;
            image.data.set(base, r);
            image.data.set(base + 1, g);
            image.data.set(base + 2, b);
            image.data.set(base + 3, ta);
        }
        proof {
            assert forall|k: int| 0 <= k < 4 * (i + 1) implies #[trigger] image.data@[k]
                == tint_byte(orig, k, rgba@) by {
                if k >= 4 * i {
                    assert(k - k % 4 == 4 * i);
                    assert(k % 4 == k - 4 * i);
                }
            }
        }
        i = i + 1;
    }
}

/// A byte after unpremultiplying its pixel: colour channels of partly
/// transparent pixels are divided by the alpha (capped at 255); opaque and
/// fully transparent pixels, alpha bytes and a trailing partial pixel stay.
pub open spec fn unpremultiply_byte(old: Seq<u8>, k: int) -> u8 {
    let base = k - k % 4;
    if base + 4 > old.len() || k % 4 == 3 {
        old[k]
    } else {
        let a = old[base + 3];
        if a == 0 || a == 255 {
            old[k]
        } else {
            let v = (old[k] as int) * 255 / (a as int);
            if v > 255 {
                255
            } else {
                v as u8
            }
        }
    }
}

/// Turns premultiplied RGBA into straight RGBA, pixel by pixel.
pub fn unpremultiply_rgba(pixels: &mut Vec<u8>)
    ensures
        final(pixels)@.len() == old(pixels)@.len(),
        forall|k: int|
            0 <= k < final(pixels)@.len() ==> #[trigger] final(pixels)@[k] == unpremultiply_byte(
                old(pixels)@,
                k,
            ),
{
    let ghost orig = pixels@;
    let total: usize = pixels.len();
    let n: usize = total / 4;
    let mut i: usize = 0;
    while i < n
        invariant
            i <= n,
            n == orig.len() / 4,
            4 * n <= orig.len(),
            orig.len() <= usize::MAX,
            pixels@.len() == orig.len(),
            orig == old(pixels)@,
            forall|k: int| 0 <= k < 4 * i ==> #[trigger] pixels@[k] == unpremultiply_byte(orig, k),
            forall|k: int| 4 * i <= k < orig.len() ==> #[trigger] pixels@[k] == orig[k],
        decreases n - i,
    {
        let base: usize = 4 * i;
        let alpha: u32 = pixels[base + 3] as u32;
        if alpha != 0 && alpha != 255 {
            let mut c: usize = 0;
            while c < 3
                invariant
                    c <= 3,
                    i < n,
                    n == orig.len() / 4,
                    4 * n <= orig.len(),
                    base == 4 * i,
                    alpha == orig[base + 3] as u32,
                    alpha != 0,
                    alpha != 255,
                    pixels@.len() == orig.len(),
                    forall|k: int| 0 <= k < 4 * i ==> #[trigger] pixels@[k] == unpremultiply_byte(
                        orig,
                        k,
                    ),
                    forall|k: int|
                        base <= k < base + c ==> #[trigger] pixels@[k] == unpremultiply_byte(
                            orig,
                            k,
                        ),
                    forall|k: int| base + c <= k < orig.len() ==> #[trigger] pixels@[k] == orig[k],
                decreases 3 - c,
            {
                let v: u32 = (pixels[base + c] as u32 * 255) / alpha;
                let out: u8 = if v > 255 {
                    255
                } else {
                    v as u8
                };
                proof {
                    let k = base + c;
                    assert(k - k % 4 == base);
                    assert(k % 4 == c);
                    assert(base + 4 <= orig.len());
                    assert(pixels@[k] == orig[k]);
                    assert(pixels@[base + 3] == orig[base + 3]);
                }
                pixels.set(base + c, out);
                c = c + 1;
            }
            proof {
                let k = base + 3;
                assert(k - k % 4 == base);
            }
        }
        proof {
            assert forall|k: int| 0 <= k < 4 * (i + 1) implies #[trigger] pixels@[k]
                == unpremultiply_byte(orig, k) by {
                if k >= 4 * i {
                    assert(k - k % 4 == 4 * i);
                    assert(k % 4 == k - 4 * i);
                }
            }
        }
        i = i + 1;
    }
    proof {
        assert forall|k: int| 0 <= k < pixels@.len() implies #[trigger] pixels@[k]
            == unpremultiply_byte(orig, k) by {
            if k >= 4 * n {
                assert(k - k % 4 + 4 > orig.len());
            }
        }
    }
}

// ---------------------------------------------------------------------------
// Resampling and compositing, done by the `image` crate
// ---------------------------------------------------------------------------

/// The pixels `image::imageops::thumbnail` makes of an RGBA raster.
pub uninterp spec fn thumbnail_pixels(
    width: u32,
    height: u32,
    data: Seq<u8>,
    new_width: u32,
    new_height: u32,
) -> Seq<u8>;

/// The pixels of `bottom` after `image::imageops::overlay` of `top` at
/// `(x, y)`.
pub uninterp spec fn overlay_pixels(
    bottom_width: u32,
    bottom_height: u32,
    bottom: Seq<u8>,
    top_width: u32,
    top_height: u32,
    top: Seq<u8>,
    x: i64,
    y: i64,
) -> Seq<u8>;

/// The source raster is small enough for `image::imageops::thumbnail` to
/// resample it to the icon raster: the crate sums each output pixel's
/// source block in a `u32` per channel (at most 255 a pixel, plus half the
/// pixel count for rounding), and a block spans at most `side / 64 + 3`
/// source pixels each way (the ratio's ceiling, one more for the f32
/// rounding of the block edges, one more for the ratio itself).
pub open spec fn thumbnail_fits(width: u32, height: u32) -> bool {
    256 * (width as int / NODE_ICON_RASTER_PX as int + 3) * (height as int / NODE_ICON_RASTER_PX as int
        + 3) <= u32::MAX
}

/// `image::imageops::thumbnail` to the icon raster's size: resamples `src`
/// to exactly 64 x 64 pixels (the crate's source allocates the output at
/// that size and fills every pixel; it does not keep the aspect ratio).
/// The pixel values are named, not stated.
#[verifier::external_body]
fn thumbnail(src: &RgbaPixels) -> (r: RgbaPixels)
    requires
        src.wf(),
        thumbnail_fits(src.width, src.height),
    ensures
        r.wf(),
        r.width == NODE_ICON_RASTER_PX,
        r.height == NODE_ICON_RASTER_PX,
        r.data@ == thumbnail_pixels(
            src.width,
            src.height,
            src.data@,
            NODE_ICON_RASTER_PX,
            NODE_ICON_RASTER_PX,
        ),
{
    let img: image::RgbaImage = image::ImageBuffer::from_raw(src.width, src.height, src.data.clone())
        .unwrap();
    let out: image::RgbaImage = image::imageops::thumbnail(
        &img,
        NODE_ICON_RASTER_PX,
        NODE_ICON_RASTER_PX,
    );
    RgbaPixels { width: out.width(), height: out.height(), data: out.into_raw() }
}

/// `image::imageops::overlay`: blends `top` onto `bottom` with its
/// top-left corner at `(x, y)`, clipped to `bottom`; `bottom` keeps its
/// size. The blended pixel values are named, not stated.
#[verifier::external_body]
fn overlay(bottom: &mut RgbaPixels, top: &RgbaPixels, x: i64, y: i64)
    requires
        old(bottom).wf(),
        top.wf(),
    ensures
        final(bottom).wf(),
        final(bottom).width == old(bottom).width,
        final(bottom).height == old(bottom).height,
        final(bottom).data@ == overlay_pixels(
            old(bottom).width,
            old(bottom).height,
            old(bottom).data@,
            top.width,
            top.height,
            top.data@,
            x,
            y,
        ),
{
    let mut canvas: image::RgbaImage = image::ImageBuffer::from_raw(
        bottom.width,
        bottom.height,
        std::mem::take(&mut bottom.data),
    ).unwrap();
    let layer: image::RgbaImage = image::ImageBuffer::from_raw(top.width, top.height, top.data.clone())
        .unwrap();
    image::imageops::overlay(&mut canvas, &layer, x, y);
    bottom.data = canvas.into_raw();
}

/// The bytes of a transparent `side` x `side` raster.
pub open spec fn blank_bytes(side: u32) -> Seq<u8> {
    Seq::new(byte_len(side, side) as nat, |i: int| 0u8)
}

/// An icon fitted into the square raster it is drawn from: resampled to
/// the raster's size and laid onto a transparent canvas, centred; an empty
/// source gives a transparent raster.
pub fn normalize_icon_canvas(source: RgbaPixels) -> (r: RgbaPixels)
    requires
        source.wf(),
        thumbnail_fits(source.width, source.height),
    ensures
        r.wf(),
        r.width == NODE_ICON_RASTER_PX,
        r.height == NODE_ICON_RASTER_PX,
        source.width == 0 || source.height == 0 ==> r.data@ == blank_bytes(NODE_ICON_RASTER_PX),
        source.width != 0 && source.height != 0 ==> r.data@ == overlay_pixels(
            NODE_ICON_RASTER_PX,
            NODE_ICON_RASTER_PX,
            blank_bytes(NODE_ICON_RASTER_PX),
            NODE_ICON_RASTER_PX,
            NODE_ICON_RASTER_PX,
            thumbnail_pixels(
                source.width,
                source.height,
                source.data@,
                NODE_ICON_RASTER_PX,
                NODE_ICON_RASTER_PX,
            ),
            0,
            0,
        ),
{
    let side: u32 = NODE_ICON_RASTER_PX;
    if source.width == 0 || source.height == 0 {
        let blank: RgbaPixels = RgbaPixels::new(side, side);
        proof {
            assert(blank.data@ =~= blank_bytes(side));
        }
        return blank;
    }
    let resized: RgbaPixels = thumbnail(&source);
    let mut canvas: RgbaPixels = RgbaPixels::new(side, side);
    proof {
        assert(canvas.data@ =~= blank_bytes(side));
    }
    let dx: i64 = ((side - resized.width) / 2) as i64;
    let dy: i64 = ((side - resized.height) / 2) as i64;
    overlay(&mut canvas, &resized, dx, dy);
    canvas
}

// ---------------------------------------------------------------------------
// Raster icon files, decoded by the `image` crate
// ---------------------------------------------------------------------------

/// The encodings of raster icon files.
#[derive(Clone, Copy, Debug, PartialEq, Eq, Structural)]
pub enum RasterFormat {
    Png,
    Jpeg,
}

/// What `image::load_from_memory_with_format` followed by `to_rgba8`
/// makes of a file's bytes: the width, height and RGBA bytes, or none for
/// bytes it rejects.
pub uninterp spec fn decoded_rgba(bytes: Seq<u8>, format: RasterFormat) -> Option<(u32, u32, Seq<u8>)>;

/// `image::load_from_memory_with_format(bytes, format)` converted with
/// `to_rgba8`: the decoded image as four bytes a pixel (an `ImageBuffer`
/// holds exactly its pixels), or none when decoding fails. The decoded
/// values are named, not stated.
#[verifier::external_body]
fn decode_rgba(bytes: &[u8], format: RasterFormat) -> (r: Option<RgbaPixels>)
    ensures
        match r {
            Some(p) => p.wf() && decoded_rgba(bytes@, format) == Some((p.width, p.height, p.data@)),
            None => decoded_rgba(bytes@, format) is None,
        },
{
    let f = match format {
        RasterFormat::Png => image::ImageFormat::Png,
        RasterFormat::Jpeg => image::ImageFormat::Jpeg,
    };
    let img = image::load_from_memory_with_format(bytes, f).ok()?.to_rgba8();
    Some(RgbaPixels { width: img.width(), height: img.height(), data: img.into_raw() })
}

/// A raster icon file's bytes read onto the icon canvas (see
/// `normalize_icon_canvas`): none when they do not decode, or when the
/// image is too large to resample (see `thumbnail_fits`).
pub fn raster_icon_from_bytes(bytes: &[u8], format: RasterFormat) -> (r: Option<RgbaPixels>)
    ensures
        match decoded_rgba(bytes@, format) {
            None => r is None,
            Some((w, h, d)) => if thumbnail_fits(w, h) {
                r matches Some(p) && p.wf() && p.width == NODE_ICON_RASTER_PX && p.height
                    == NODE_ICON_RASTER_PX && p.data@ == (if w == 0 || h == 0 {
                    blank_bytes(NODE_ICON_RASTER_PX)
                } else {
                    overlay_pixels(
                        NODE_ICON_RASTER_PX,
                        NODE_ICON_RASTER_PX,
                        blank_bytes(NODE_ICON_RASTER_PX),
                        NODE_ICON_RASTER_PX,
                        NODE_ICON_RASTER_PX,
                        thumbnail_pixels(w, h, d, NODE_ICON_RASTER_PX, NODE_ICON_RASTER_PX),
                        0,
                        0,
                    )
                })
            } else {
                r is None
            },
        },
{
    let source: RgbaPixels = match decode_rgba(bytes, format) {
        Some(p) => p,
        None => {
            return None;
        },
    };
    if !thumbnail_fits_exec(source.width, source.height) {
        return None;
    }
    Some(normalize_icon_canvas(source))
}

fn thumbnail_fits_exec(width: u32, height: u32) -> (r: bool)
    ensures
        r == thumbnail_fits(width, height),
{
    let a: u64 = (width / NODE_ICON_RASTER_PX) as u64 + 3;
    let b: u64 = (height / NODE_ICON_RASTER_PX) as u64 + 3;
    assert(a * b <= 0x0020_0000_0000_0000) by (nonlinear_arith)
        requires
            a <= 0x0400_0000 + 3,
            b <= 0x0400_0000 + 3,
    ;
    assert(a * b * 256 == 256 * a * b) by (nonlinear_arith);
    assert(a == width as int / NODE_ICON_RASTER_PX as int + 3);
    assert(b == height as int / NODE_ICON_RASTER_PX as int + 3);
    a * b * 256 <= u32::MAX as u64
}

} // verus!
