use vstd::prelude::*;

use crate::strings::{chars_eq, chars_of, string_from_chars, trim, trim_ws};

verus! {

// ---------------------------------------------------------------------------
// Which theme and size a cursor is loaded with
// ---------------------------------------------------------------------------

/// The configured cursor theme, trimmed; `Adwaita` when blank.
pub open spec fn theme_name_spec(theme: Seq<char>) -> Seq<char> {
    if trim_ws(theme).len() == 0 {
        "Adwaita"@
    } else {
        trim_ws(theme)
    }
}

pub fn cursor_theme_name(theme: &str) -> (r: String)
    ensures
        r@ == theme_name_spec(theme@),
{
    let t: Vec<char> = trim(chars_of(theme).as_slice());
    if t.len() == 0 {
        string_from_chars(chars_of("Adwaita").as_slice())
    } else {
        string_from_chars(t.as_slice())
    }
}

/// The cursor size, held to 8..=128.
pub fn cursor_size(size: u32) -> (r: u32)
    ensures
        r == (if size < 8 {
            8
        } else if size > 128 {
            128
        } else {
            size
        }),
{
    if size < 8 {
        8
    } else if size > 128 {
        128
    } else {
        size
    }
}

/// The themes tried for a cursor: the configured one, then `Adwaita`
/// unless that is the configured one.
pub fn cursor_theme_candidates(theme: &str) -> (r: Vec<String>)
    ensures
        theme@ == "Adwaita"@ ==> r@.map_values(|s: String| s@) == seq![theme@],
        theme@ != "Adwaita"@ ==> r@.map_values(|s: String| s@) == seq![theme@, "Adwaita"@],
{
    let mut r: Vec<String> = Vec::new();
    let t: Vec<char> = chars_of(theme);
    let adwaita: Vec<char> = chars_of("Adwaita");
    r.push(string_from_chars(t.as_slice()));
    if !chars_eq(t.as_slice(), adwaita.as_slice()) {
        r.push(string_from_chars(adwaita.as_slice()));
        proof {
            assert(r@.map_values(|s: String| s@) =~= seq![theme@, "Adwaita"@]);
        }
    } else {
        proof {
            assert(r@.map_values(|s: String| s@) =~= seq![theme@]);
        }
    }
    r
}

// ---------------------------------------------------------------------------
// Xcursor files
// ---------------------------------------------------------------------------

/// One image of an Xcursor file.
#[derive(Clone, Debug)]
pub struct XcursorImage {
    pub size: u32,
    pub width: u32,
    pub height: u32,
    pub xhot: u32,
    pub yhot: u32,
    pub delay: u32,
    pub pixels_rgba: Vec<u8>,
}

/// An image as plain values: size, width, height, hotspot, delay and the
/// pixel bytes in file order.
pub type XcursorImageView = (u32, u32, u32, u32, u32, u32, Seq<u8>);

pub open spec fn image_view(img: XcursorImage) -> XcursorImageView {
        (img.size, img.width, img.height, img.xhot, img.yhot, img.delay, img.pixels_rgba@)
}

/// The images `xcursor::parser::parse_xcursor` reads from a file's bytes,
/// or none for a file it rejects.
pub uninterp spec fn xcursor_images(content: Seq<u8>) -> Option<Seq<XcursorImageView>>;

/// An image that the parser accepts: at most 0x7fff pixels and at least one
/// each way, its hotspot inside, four bytes a pixel.
pub open spec fn image_well_formed(img: XcursorImage) -> bool {
    &&& 0 < img.width <= 0x7fff
    &&& 0 < img.height <= 0x7fff
    &&& img.xhot <= img.width
    &&& img.yhot <= img.height
    &&& img.pixels_rgba@.len() == 4 * (img.width as int) * (img.height as int)
}

/// `xcursor::parser::parse_xcursor`. The images it returns are named, not
/// stated; the crate's `parse_img` refuses an image larger than 0x7fff,
/// empty, or with its hotspot outside, and reads four bytes a pixel.
#[verifier::external_body]
fn parse_xcursor(content: &[u8]) -> (r: Option<Vec<XcursorImage>>)
    ensures
        match r {
            Some(v) => xcursor_images(content@) == Some(
                v@.map_values(|i: XcursorImage| image_view(i)),
            ) && forall|k: int| 0 <= k < v@.len() ==> image_well_formed(#[trigger] v@[k]),
            None => xcursor_images(content@) is None,
        },
{
    let images = xcursor::parser::parse_xcursor(content)?;
    let mut out: Vec<XcursorImage> = Vec::with_capacity(images.len());
    for i in images {
        out.push(XcursorImage {
            size: i.size,
            width: i.width,
            height: i.height,
            xhot: i.xhot,
            yhot: i.yhot,
            delay: i.delay,
            pixels_rgba: i.pixels_rgba,
        });
    }
    Some(out)
}

pub open spec fn abs_diff(a: u32, b: u32) -> int {
    if a >= b {
        a - b
    } else {
        b - a
    }
}

/// The key an image is chosen by: nearest nominal size, then nearest
/// width, then shortest delay.
pub open spec fn image_key(img: XcursorImageView, requested: u32) -> (int, int, int) {
    (abs_diff(img.0, requested), abs_diff(img.1, requested), img.5 as int)
}

pub open spec fn key_lt(a: (int, int, int), b: (int, int, int)) -> bool {
    a.0 < b.0 || (a.0 == b.0 && (a.1 < b.1 || (a.1 == b.1 && a.2 < b.2)))
}

/// `k` is the first image with the least key.
pub open spec fn best_image_index(images: Seq<XcursorImageView>, requested: u32, k: int) -> bool {
    &&& 0 <= k < images.len()
    &&& forall|j: int|
        0 <= j < images.len() ==> !key_lt(
            image_key(#[trigger] images[j], requested),
            image_key(images[k], requested),
        )
    &&& forall|j: int|
        0 <= j < k ==> key_lt(
            image_key(images[k], requested),
            image_key(#[trigger] images[j], requested),
        )
}

fn abs_diff_u32(a: u32, b: u32) -> (r: u32)
    ensures
        r == abs_diff(a, b),
{
    if a >= b {
        a - b
    } else {
        b - a
    }
}

fn key_lt_exec(a: (u32, u32, u32), b: (u32, u32, u32)) -> (r: bool)
    ensures
        r == key_lt((a.0 as int, a.1 as int, a.2 as int), (b.0 as int, b.1 as int, b.2 as int)),
{
    a.0 < b.0 || (a.0 == b.0 && (a.1 < b.1 || (a.1 == b.1 && a.2 < b.2)))
}

/// The image of a cursor to use for a requested size: the first of those
/// nearest in nominal size, then in width, then with the shortest delay.
pub fn pick_best_cursor_image(images: &[XcursorImage], requested_size: u32) -> (r: Option<usize>)
    ensures
        images@.len() == 0 <==> r is None,
        r matches Some(k) ==> best_image_index(
            images@.map_values(|i: XcursorImage| image_view(i)),
            requested_size,
            k as int,
        ),
{
    if images.len() == 0 {
        return None;
    }
    let ghost v = images@.map_values(|i: XcursorImage| image_view(i));
    let mut best: usize = 0;
    let mut best_key: (u32, u32, u32) = (
        abs_diff_u32(images[0].size, requested_size),
        abs_diff_u32(images[0].width, requested_size),
        images[0].delay,
    );
    let mut i: usize = 1;
    while i < images.len()
        invariant
            1 <= i <= images@.len(),
            best < i,
            v == images@.map_values(|i: XcursorImage| image_view(i)),
            (best_key.0 as int, best_key.1 as int, best_key.2 as int) == image_key(
                v[best as int],
                requested_size,
            ),
            forall|j: int|
                0 <= j < i ==> !key_lt(
                    image_key(#[trigger] v[j], requested_size),
                    image_key(v[best as int], requested_size),
                ),
            forall|j: int|
                0 <= j < best ==> key_lt(
                    image_key(v[best as int], requested_size),
                    image_key(#[trigger] v[j], requested_size),
                ),
        decreases images.len() - i,
    {
        let key: (u32, u32, u32) = (
            abs_diff_u32(images[i].size, requested_size),
            abs_diff_u32(images[i].width, requested_size),
            images[i].delay,
        );
        proof {
            assert(v[i as int] == image_view(images@[i as int]));
        }
        if key_lt_exec(key, best_key) {
            proof {
                assert forall|j: int| 0 <= j < i implies key_lt(
                    image_key(v[i as int], requested_size),
                    image_key(#[trigger] v[j], requested_size),
                ) by {
                    if j < best {
                    }
                }
            }
            best = i;
            best_key = key;
        }
        i = i + 1;
    }
    Some(best)
}

/// A cursor image ready to draw: size, hotspot and pixels.
#[derive(Clone, Debug)]
pub struct SoftwareCursorSprite {
    pub width: usize,
    pub height: usize,
    pub hotspot_x: i32,
    pub hotspot_y: i32,
    pub pixels_bgra: Vec<u8>,
}

/// `v` held to `0..=max`.
pub open spec fn clamp_hot(v: u32, max: int) -> int {
    if v > max {
        max
    } else {
        v as int
    }
}

/// The sprite made of a chosen image: its size, its hotspot kept inside
/// it, its pixels.
pub open spec fn sprite_of(img: XcursorImageView, s: SoftwareCursorSprite) -> bool {
    &&& s.width == img.1
    &&& s.height == img.2
    &&& s.hotspot_x == clamp_hot(img.3, img.1 - 1)
    &&& s.hotspot_y == clamp_hot(img.4, img.2 - 1)
    &&& s.pixels_bgra@ == img.6
}

/// Reads a cursor file and makes a sprite of its image that fits
/// `requested_size` best; none when the file cannot be parsed or holds no
/// image.
pub fn cursor_sprite_from_file(content: &[u8], requested_size: u32) -> (r: Option<
    SoftwareCursorSprite,
>)
    ensures
        match xcursor_images(content@) {
            None => r is None,
            Some(imgs) => if imgs.len() == 0 {
                r is None
            } else {
                r matches Some(s) && exists|k: int|
                    best_image_index(imgs, requested_size, k) && sprite_of(#[trigger] imgs[k], s)
            },
        },
{
    let images: Vec<XcursorImage> = match parse_xcursor(content) {
        Some(v) => v,
        None => {
            return None;
        },
    };
    let k: usize = match pick_best_cursor_image(images.as_slice(), requested_size) {
        Some(k) => k,
        None => {
            return None;
        },
    };
    let img: &XcursorImage = &images[k];
    proof {
        assert(image_well_formed(images@[k as int]));
    }
    let max_x: i32 = (img.width - 1) as i32;
    let max_y: i32 = (img.height - 1) as i32;
    let hx: i32 = if img.xhot as i32 > max_x {
        max_x
    } else {
        img.xhot as i32
    };
    let hy: i32 = if img.yhot as i32 > max_y {
        max_y
    } else {
        img.yhot as i32
    };
    let sprite: SoftwareCursorSprite = SoftwareCursorSprite {
        width: img.width as usize,
        height: img.height as usize,
        hotspot_x: hx,
        hotspot_y: hy,
        pixels_bgra: img.pixels_rgba.clone(),
    };
    proof {
        let imgs = images@.map_values(|i: XcursorImage| image_view(i));
        assert(imgs[k as int] == image_view(images@[k as int]));
        assert(sprite_of(imgs[k as int], sprite));
    }
    Some(sprite)
}

} // verus!
