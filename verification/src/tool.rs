//! Payloads of the `thermal-probe` command-line tool: probe page, character
//! set sample, width ruler and image pages.

use vstd::prelude::*;
use vstd::string::StringExecFns;
use vstd::arithmetic::div_mod::lemma_fundamental_div_mod_converse;
use crate::codepage::{cp860, text_bytes};
use crate::number::{decimal, u32_decimal};
use crate::payload::{outlined_square, outlined_square_raster, lemma_square_encoding};
use crate::raster::{
    esc_init, gs_v0, gs_v0_bytes, fits_gs_v0, two_feeds, width_in_range, scaled_height,
    resize_fits, shrink_to_width, is_shrink, scaled_image_payload, scaled_payload, bytes_result,
    lemma_index_in_bounds, Image, Raster, RasterError,
};
use crate::text::join2;

verus! {

/// The text of the tool's probe page.
pub open spec fn tool_probe_text() -> Seq<char> {
    "THERMAL PROBE\nASCII OK 0123456789\n\n"@
}

/// Diagnostic page of the command-line tool: `ESC @`, a short ASCII text, the
/// outlined square as a raster, and two line feeds.
pub fn probe_payload() -> (out: Vec<u8>)
    ensures
        out@ == esc_init() + cp860(tool_probe_text()) + gs_v0_bytes(outlined_square()) + two_feeds(),
{
    let mut out: Vec<u8> = vec![0x1b, 0x40];
    let mut text = text_bytes("THERMAL PROBE\nASCII OK 0123456789\n\n");
    out.append(&mut text);
    let square = outlined_square_raster();
    proof {
        lemma_square_encoding();
    }
    let mut raster = match gs_v0(&square) {
        Ok(bytes) => bytes,
        Err(_) => Vec::new(),
    };
    out.append(&mut raster);
    out.push(0x0a);
    out.push(0x0a);
    proof {
        assert(out@ =~= esc_init() + cp860(tool_probe_text()) + gs_v0_bytes(outlined_square()) + two_feeds());
    }
    out
}

/// Title line of the character set sample.
pub open spec fn charset_title() -> Seq<char> {
    "CP860 (ESC t 3)\n"@
}

/// Portuguese sample sentence of the character set sample.
pub open spec fn charset_sample() -> Seq<char> {
    "Português: Olá, ação, órgão, café\n"@
}

/// Character set sample: `ESC @`, a title, `ESC t 3` (code page 860), a
/// Portuguese sentence in CP860, and a line feed.
pub fn charset_payload() -> (out: Vec<u8>)
    ensures
        out@ == esc_init() + cp860(charset_title()) + seq![0x1bu8, 0x74u8, 3u8] + cp860(
            charset_sample(),
        ) + seq![0x0au8],
{
    let mut out: Vec<u8> = vec![0x1b, 0x40];
    let mut title = text_bytes("CP860 (ESC t 3)\n");
    out.append(&mut title);
    out.push(0x1b);
    out.push(0x74);
    out.push(3);
    let mut sample = text_bytes("Português: Olá, ação, órgão, café\n");
    out.append(&mut sample);
    out.push(0x0a);
    proof {
        assert(out@ =~= esc_init() + cp860(charset_title()) + seq![0x1bu8, 0x74u8, 3u8] + cp860(
            charset_sample(),
        ) + seq![0x0au8]);
    }
    out
}

// ---------------------------------------------------------------------------
// Width ruler
// ---------------------------------------------------------------------------

/// Graduation mark: every 8th column, 36 dots long at multiples of 64 and
/// 18 dots otherwise.
pub open spec fn ruler_tick(x: int, y: int) -> bool {
    x % 8 == 0 && y < if x % 64 == 0 {
        36int
    } else {
        18int
    }
}

/// Black dots of the ruler: its frame and the graduation marks.
pub open spec fn ruler_black(width: int, x: int, y: int) -> bool {
    y == 0 || y == 71 || x == 0 || x == width - 1 || ruler_tick(x, y)
}

/// A `width x 72` ruler.
pub open spec fn ruler(width: nat) -> Image {
    Image {
        width,
        height: 72,
        pixels: Seq::new(
            width * 72,
            |i: int|
                if ruler_black(width as int, i % (width as int), i / (width as int)) {
                    0u8
                } else {
                    255u8
                },
        ),
    }
}

/// Pixel `(x, y)` of row-major pixels `s` of width `w`.
pub open spec fn px(s: Seq<u8>, w: int, x: int, y: int) -> u8 {
    s[y * w + x]
}

proof fn lemma_coords_unique(w: int, x: int, y: int, x0: int, y0: int)
    requires
        0 <= x < w,
        0 <= x0 < w,
        0 <= y,
        0 <= y0,
        y * w + x == y0 * w + x0,
    ensures
        x == x0 && y == y0,
{
    lemma_fundamental_div_mod_converse(y * w + x, w, y, x);
    lemma_fundamental_div_mod_converse(y0 * w + x0, w, y0, x0);
}

proof fn lemma_update_px(s: Seq<u8>, w: int, h: int, x0: int, y0: int, v: u8)
    requires
        0 <= x0 < w,
        0 <= y0 < h,
        s.len() == w * h,
    ensures
        forall|x: int, y: int|
            0 <= x < w && 0 <= y < h ==> #[trigger] px(s.update(y0 * w + x0, v), w, x, y) == if x
                == x0 && y == y0 {
                v
            } else {
                px(s, w, x, y)
            },
{
    lemma_index_in_bounds(x0, y0, w, h);
    assert forall|x: int, y: int| 0 <= x < w && 0 <= y < h implies #[trigger] px(
        s.update(y0 * w + x0, v),
        w,
        x,
        y,
    ) == if x == x0 && y == y0 {
        v
    } else {
        px(s, w, x, y)
    } by {
        lemma_index_in_bounds(x, y, w, h);
        if y * w + x == y0 * w + x0 {
            lemma_coords_unique(w, x, y, x0, y0);
        }
    }
}

/// Columns `< cols` drawn: top and bottom rows and the marks.
pub open spec fn ruler_columns(cols: int, x: int, y: int) -> bool {
    x < cols && (y == 0 || y == 71 || ruler_tick(x, y))
}

fn draw_black(img: &mut Raster, x: u32, y: u32, ghost_pred: Ghost<spec_fn(int, int) -> bool>)
    requires
        x < old(img)@.width,
        y < old(img)@.height,
        old(img)@.pixels.len() == old(img)@.width * old(img)@.height,
        forall|i: int, j: int|
            0 <= i < old(img)@.width && 0 <= j < old(img)@.height ==> #[trigger] px(
                old(img)@.pixels,
                old(img)@.width as int,
                i,
                j,
            ) == if ghost_pred@(i, j) {
                0u8
            } else {
                255u8
            },
    ensures
        final(img)@.width == old(img)@.width,
        final(img)@.height == old(img)@.height,
        final(img)@.pixels.len() == final(img)@.width * final(img)@.height,
        forall|i: int, j: int|
            0 <= i < final(img)@.width && 0 <= j < final(img)@.height ==> #[trigger] px(
                final(img)@.pixels,
                final(img)@.width as int,
                i,
                j,
            ) == if ghost_pred@(i, j) || (i == x && j == y) {
                0u8
            } else {
                255u8
            },
{
    let ghost before = img@;
    proof {
        lemma_index_in_bounds(x as int, y as int, before.width as int, before.height as int);
    }
    img.put_pixel(x, y, 0);
    proof {
        lemma_update_px(before.pixels, before.width as int, before.height as int, x as int, y as int, 0);
    }
}

/// The ruler image for a printable width.
pub fn ruler_raster(width: u32) -> (r: Raster)
    requires
        width >= 1,
        width * 72 <= usize::MAX,
    ensures
        r@ == ruler(width as nat),
{
    let h: u32 = 72;
    let mut img = Raster::from_pixel(width, h, 255);
    let ghost w = width as int;
    proof {
        assert forall|i: int, j: int| 0 <= i < w && 0 <= j < 72 implies #[trigger] px(
            img@.pixels,
            w,
            i,
            j,
        ) == if ruler_columns(0, i, j) {
            0u8
        } else {
            255u8
        } by {
            lemma_index_in_bounds(i, j, w, 72);
        }
    }
    let mut x: u32 = 0;
    while x < width
        invariant
            img@.width == width,
            img@.height == 72,
            w == width,
            img@.pixels.len() == width * 72,
            x <= width,
            forall|i: int, j: int|
                0 <= i < w && 0 <= j < 72 ==> #[trigger] px(img@.pixels, w, i, j) == if ruler_columns(
                    x as int,
                    i,
                    j,
                ) {
                    0u8
                } else {
                    255u8
                },
        decreases width - x,
    {
        let ghost xc = x as int;
        draw_black(&mut img, x, 0, Ghost(|i: int, j: int| ruler_columns(xc, i, j)));
        draw_black(
            &mut img,
            x,
            71,
            Ghost(|i: int, j: int| ruler_columns(xc, i, j) || (i == xc && j == 0)),
        );
        if x % 8 == 0 {
            let len: u32 = if x % 64 == 0 {
                36
            } else {
                18
            };
            let mut y: u32 = 0;
            while y < len
                invariant
                    img@.width == width,
                    img@.height == 72,
                    w == width,
                    xc == x,
                    x < width,
                    x % 8 == 0,
                    len == if x % 64 == 0 {
                        36int
                    } else {
                        18int
                    },
                    img@.pixels.len() == width * 72,
                    y <= len,
                    forall|i: int, j: int|
                        0 <= i < w && 0 <= j < 72 ==> #[trigger] px(img@.pixels, w, i, j) == if ruler_columns(xc, i, j) || (i == xc && (j == 0 || j == 71 || j < y)) {
                            0u8
                        } else {
                            255u8
                        },
                decreases len - y,
            {
                let ghost yc = y as int;
                draw_black(
                    &mut img,
                    x,
                    y,
                    Ghost(
                        |i: int, j: int|
                            ruler_columns(xc, i, j) || (i == xc && (j == 0 || j == 71 || j < yc)),
                    ),
                );
                y = y + 1;
            }
        }
        x = x + 1;
        proof {
            assert forall|i: int, j: int| 0 <= i < w && 0 <= j < 72 implies #[trigger] px(
                img@.pixels,
                w,
                i,
                j,
            ) == if ruler_columns(x as int, i, j) {
                0u8
            } else {
                255u8
            } by {}
        }
    }
    let mut y: u32 = 0;
    while y < h
        invariant
            img@.width == width,
            img@.height == 72,
            h == 72,
            w == width,
            width >= 1,
            img@.pixels.len() == width * 72,
            y <= h,
            forall|i: int, j: int|
                0 <= i < w && 0 <= j < 72 ==> #[trigger] px(img@.pixels, w, i, j) == if ruler_columns(w, i, j) || (j < y && (i == 0 || i == w - 1)) {
                    0u8
                } else {
                    255u8
                },
        decreases h - y,
    {
        let ghost yc = y as int;
        draw_black(
            &mut img,
            0,
            y,
            Ghost(|i: int, j: int| ruler_columns(w, i, j) || (j < yc && (i == 0 || i == w - 1))),
        );
        draw_black(
            &mut img,
            width - 1,
            y,
            Ghost(
                |i: int, j: int|
                    ruler_columns(w, i, j) || (j < yc && (i == 0 || i == w - 1)) || (i == 0 && j == yc),
            ),
        );
        y = y + 1;
        proof {
            assert forall|i: int, j: int| 0 <= i < w && 0 <= j < 72 implies #[trigger] px(
                img@.pixels,
                w,
                i,
                j,
            ) == if ruler_columns(w, i, j) || (j < y && (i == 0 || i == w - 1)) {
                0u8
            } else {
                255u8
            } by {}
        }
    }
    proof {
        let target = ruler(width as nat);
        assert forall|k: int| 0 <= k < w * 72 implies #[trigger] img@.pixels[k] == target.pixels[k] by {
            let i = k % w;
            let j = k / w;
            vstd::arithmetic::div_mod::lemma_fundamental_div_mod(k, w);
            vstd::arithmetic::div_mod::lemma_mod_bound(k, w);
            vstd::arithmetic::div_mod::lemma_div_pos_is_pos(k, w);
            assert(k == j * w + i) by (nonlinear_arith)
                requires
                    k == w * j + i,
            ;
            assert(0 <= i < w);
            assert(0 <= j < 72) by (nonlinear_arith)
                requires
                    k == j * w + i,
                    0 <= i < w,
                    0 <= j,
                    k < w * 72,
            ;
            assert(px(img@.pixels, w, i, j) == img@.pixels[k]);
        }
        assert(img@.pixels =~= target.pixels);
    }
    img
}

/// Heading of the width test page.
pub open spec fn width_heading(width: nat) -> Seq<char> {
    "WIDTH TEST: "@ + decimal(width) + " dots\nEach small mark = 8 dots\n"@
}

/// Width test page: `ESC @`, a heading naming the width, a `width x 72`
/// ruler with a mark every 8 dots, and two line feeds. Fails when the ruler
/// is too wide for one raster command.
pub fn width_payload(width: u32) -> (r: Result<Vec<u8>, RasterError>)
    requires
        width >= 1,
        width * 72 <= usize::MAX,
    ensures
        r is Err <==> !fits_gs_v0(ruler(width as nat)),
        r matches Err(e) ==> e == RasterError::TooLarge,
        r matches Ok(out) ==> out@ == esc_init() + cp860(width_heading(width as nat)) + gs_v0_bytes(
            ruler(width as nat),
        ) + two_feeds(),
{
    let img = ruler_raster(width);
    let mut out: Vec<u8> = vec![0x1b, 0x40];
    let heading = join2("WIDTH TEST: ", u32_decimal(width).as_str()).concat(
        " dots\nEach small mark = 8 dots\n",
    );
    let mut text = text_bytes(heading.as_str());
    out.append(&mut text);
    let mut raster = match gs_v0(&img) {
        Ok(bytes) => bytes,
        Err(e) => return Err(e),
    };
    out.append(&mut raster);
    out.push(0x0a);
    out.push(0x0a);
    proof {
        assert(out@ =~= esc_init() + cp860(width_heading(width as nat)) + gs_v0_bytes(
            ruler(width as nat),
        ) + two_feeds());
    }
    Ok(out)
}

// ---------------------------------------------------------------------------
// Image pages
// ---------------------------------------------------------------------------

/// Page payload of the command-line tool for a grayscale image: `ESC @`, the
/// image (scaled down to `width` dots when wider) as a `GS v 0` raster, and
/// two line feeds. `width` must lie in `1..=4096`.
pub fn image_payload(gray: Raster, width: u32) -> (r: Result<Vec<u8>, RasterError>)
    requires
        width_in_range(width as nat) && gray@.width > width ==> resize_fits(
            gray@.width,
            width as nat,
            scaled_height(gray@.width, gray@.height, width as nat),
        ),
    ensures
        !width_in_range(width as nat) ==> r == Err::<Vec<u8>, RasterError>(RasterError::WidthOutOfRange),
        width_in_range(width as nat) ==> exists|n: Image|
            is_shrink(gray@, width as nat, n) && bytes_result(r) == scaled_payload(n),
{
    if width == 0 || width > 4096 {
        return Err(RasterError::WidthOutOfRange);
    }
    let ghost img = gray@;
    let target = shrink_to_width(gray, width);
    let r = scaled_image_payload(&target);
    proof {
        assert(is_shrink(img, width as nat, target@) && bytes_result(r) == scaled_payload(target@));
    }
    r
}

} // verus!
