//! Fixed diagnostic payloads: the outlined test square and the probe page.

use vstd::prelude::*;
use crate::codepage::{cp860, text_bytes};
use crate::raster::{
    esc_init, fits_gs_v0, gs_v0, gs_v0_bytes, gs_v0_header, is_dark, packed_prefix, raster_byte,
    raster_data, row_bytes, two_feeds, Image, Raster,
};

verus! {

/// A 16 x 16 white square with a one-pixel black outline.
pub open spec fn outlined_square() -> Image {
    Image {
        width: 16,
        height: 16,
        pixels: Seq::new(
            256,
            |i: int|
                if i % 16 == 0 || i % 16 == 15 || i / 16 == 0 || i / 16 == 15 {
                    0u8
                } else {
                    255u8
                },
        ),
    }
}

/// The outlined square as `GS v 0` data: full rows `FF FF` at the top and
/// bottom, `80 01` (the two side pixels) in between.
pub open spec fn square_rows() -> Seq<u8> {
    Seq::new(
        32,
        |i: int|
            if i / 2 == 0 || i / 2 == 15 {
                0xffu8
            } else if i % 2 == 0 {
                0x80u8
            } else {
                0x01u8
            },
    )
}

/// Law: the outlined square encodes as a 2-byte-wide, 16-row raster whose
/// rows are `FF FF`, fourteen times `80 01`, and `FF FF`.
pub proof fn lemma_square_encoding()
    ensures
        fits_gs_v0(outlined_square()),
        gs_v0_bytes(outlined_square()) == seq![0x1du8, 0x76u8, 0x30u8, 0u8, 2u8, 0u8, 16u8, 0u8]
            + square_rows(),
{
    let img = outlined_square();
    assert(row_bytes(16) == 2);
    assert forall|i: int| 0 <= i < 32 implies #[trigger] raster_data(img)[i] == square_rows()[i] by {
        let y = i / 2;
        let xb = i % 2;
        reveal_with_fuel(packed_prefix, 9);
        assert forall|k: int| 0 <= k < 8 implies #[trigger] is_dark(img, xb * 8 + k, y) == (y
            == 0 || y == 15 || xb * 8 + k == 0 || xb * 8 + k == 15) by {
            let x = xb * 8 + k;
            assert(0 <= x < 16);
            let j = y * 16 + x;
            assert(j % 16 == x && j / 16 == y);
        }
        assert(raster_byte(img, y, xb) == square_rows()[i]);
    }
    assert(raster_data(img) =~= square_rows());
    assert(gs_v0_header(2, 16) =~= seq![0x1du8, 0x76u8, 0x30u8, 0u8, 2u8, 0u8, 16u8, 0u8]);
}

/// Draws the outlined square.
pub fn outlined_square_raster() -> (r: Raster)
    ensures
        r@ == outlined_square(),
{
    let mut square = Raster::from_pixel(16, 16, 255);
    let mut p: u32 = 0;
    while p < 16
        invariant
            p <= 16,
            square@.width == 16,
            square@.height == 16,
            square@.pixels == Seq::new(
                256,
                |i: int|
                    if ((i / 16 == 0 || i / 16 == 15) && i % 16 < p) || ((i % 16 == 0 || i % 16
                        == 15) && i / 16 < p) {
                        0u8
                    } else {
                        255u8
                    },
            ),
        decreases 16 - p,
    {
        square.put_pixel(p, 0, 0);
        square.put_pixel(p, 15, 0);
        square.put_pixel(0, p, 0);
        square.put_pixel(15, p, 0);
        p = p + 1;
        proof {
            assert(square@.pixels =~= Seq::new(
                256,
                |i: int|
                    if ((i / 16 == 0 || i / 16 == 15) && i % 16 < p) || ((i % 16 == 0 || i % 16
                        == 15) && i / 16 < p) {
                        0u8
                    } else {
                        255u8
                    },
            ));
        }
    }
    proof {
        assert(square@.pixels =~= outlined_square().pixels);
    }
    square
}

/// The text of the library's probe page.
pub open spec fn probe_text() -> Seq<char> {
    "THZ THERMALKIT\nDirect ESC/POS Driverless OK\n0123456789\n\n"@
}

/// Diagnostic page: `ESC @`, a short ASCII text, the outlined square as a
/// raster, and two line feeds.
pub fn probe_payload() -> (out: Vec<u8>)
    ensures
        out@ == esc_init() + cp860(probe_text()) + gs_v0_bytes(outlined_square()) + two_feeds(),
{
    let mut out: Vec<u8> = vec![0x1b, 0x40];
    let mut text = text_bytes("THZ THERMALKIT\nDirect ESC/POS Driverless OK\n0123456789\n\n");
    out.append(&mut text);
    let square = outlined_square_raster();
    proof {
        lemma_square_encoding();
    }
    let mut raster = match gs_v0(&square) {
        Ok(bytes) => bytes,
        Err(_) => Vec::new(),
    };
    out.append(&mut raster);
    out.push(0x0a);
    out.push(0x0a);
    proof {
        assert(out@ =~= esc_init() + cp860(probe_text()) + gs_v0_bytes(outlined_square()) + two_feeds());
    }
    out
}

/// `ESC d n` then a line feed: print and feed `n` lines.
pub open spec fn feed_spec(lines: u8) -> Seq<u8> {
    seq![0x1bu8, 0x64u8, lines, 0x0au8]
}

/// Feeds `lines` lines (4 when not given).
pub fn feed_bytes(lines: Option<u8>) -> (out: Vec<u8>)
    ensures
        out@ == feed_spec(
            match lines {
                Some(n) => n,
                None => 4u8,
            },
        ),
{
    let count: u8 = match lines {
        Some(n) => n,
        None => 4,
    };
    let out: Vec<u8> = vec![0x1b, 0x64, count, 0x0a];
    proof {
        assert(out@ =~= feed_spec(count));
    }
    out
}

} // verus!
