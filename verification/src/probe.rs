//! The minimal interactive probe: its device id summary and its fixed test
//! payload with a hand-packed raster square.

use vstd::prelude::*;
use vstd::string::StringExecFns;
use crate::codepage::{cp860, text_bytes};
use crate::payload::{lemma_square_encoding, outlined_square, square_rows};
use crate::raster::{esc_init, gs_v0_bytes};
use crate::text::{ascii_uppercase, chars_of, find, find_from_exec, lemma_find_from, string_from_chars, upper_seq};

verus! {

/// The tag and the four characters after it, taken from the first `tag` in
/// `upper` (fewer when the text ends sooner).
pub open spec fn tag_excerpt(upper: Seq<char>, tag: Seq<char>) -> Option<Seq<char>> {
    match find(upper, tag) {
        None => None,
        Some(i) => Some(upper.subrange(i, if i + tag.len() + 4 < upper.len() {
            i + tag.len() + 4
        } else {
            upper.len() as int
        })),
    }
}

/// Vendor and product id excerpts of an upper-cased id text, joined by a space.
pub open spec fn ids_spec(text: Seq<char>) -> Seq<char> {
    let up = upper_seq(text);
    match (tag_excerpt(up, "VID_"@), tag_excerpt(up, "PID_"@)) {
        (Some(a), Some(b)) => a + " "@ + b,
        (Some(a), None) => a,
        (None, Some(b)) => b,
        (None, None) => Seq::empty(),
    }
}

fn excerpt(up: &Vec<char>, tag: &str) -> (r: Option<Vec<char>>)
    ensures
        match r {
            Some(v) => tag_excerpt(up@, tag@) == Some(v@),
            None => tag_excerpt(up@, tag@) is None,
        },
{
    let pat = chars_of(tag);
    let n = up.len();
    match find_from_exec(up, &pat, 0) {
        None => None,
        Some(i) => {
            proof {
                lemma_find_from(up@, pat@, 0);
            }
            let end: usize = if n - i - pat.len() > 4 {
                i + pat.len() + 4
            } else {
                n
            };
            let mut out: Vec<char> = Vec::new();
            let mut k: usize = i;
            while k < end
                invariant
                    i <= k <= end,
                    end <= up@.len(),
                    out@ == up@.subrange(i as int, k as int),
                decreases end - k,
            {
                out.push(up[k]);
                assert(up@.subrange(i as int, k + 1) =~= up@.subrange(i as int, k as int).push(up@[k as int]));
                k = k + 1;
            }
            Some(out)
        },
    }
}

/// `VID_xxxx PID_xxxx` (whichever are present) from an id text.
pub fn ids(text: &str) -> (s: String)
    ensures
        s@ == ids_spec(text@),
{
    let upper = ascii_uppercase(text);
    let up = chars_of(upper.as_str());
    let vid = excerpt(&up, "VID_");
    let pid = excerpt(&up, "PID_");
    match (vid, pid) {
        (Some(a), Some(b)) => string_from_chars(&a).concat(" ").concat(string_from_chars(&b).as_str()),
        (Some(a), None) => string_from_chars(&a),
        (None, Some(b)) => string_from_chars(&b),
        (None, None) => String::new(),
    }
}

/// The hand-packed 16 x 16 square: header, rows, and a line feed.
pub open spec fn raster_test_spec() -> Seq<u8> {
    seq![0x1du8, 0x76u8, 0x30u8, 0u8, 2u8, 0u8, 16u8, 0u8] + square_rows() + seq![0x0au8]
}

/// `GS v 0` for a 16 x 16 outlined square, written out by hand, followed by
/// a line feed.
pub fn raster_test() -> (out: Vec<u8>)
    ensures
        out@ == raster_test_spec(),
        out@ == gs_v0_bytes(outlined_square()) + seq![0x0au8],
{
    let mut out: Vec<u8> = vec![0x1d, 0x76, 0x30, 0, 2, 0, 16, 0];
    let mut row: usize = 0;
    while row < 16
        invariant
            row <= 16,
            out@ == seq![0x1du8, 0x76u8, 0x30u8, 0u8, 2u8, 0u8, 16u8, 0u8] + square_rows().take(
                (row * 2) as int,
            ),
        decreases 16 - row,
    {
        if row == 0 || row == 15 {
            out.push(0xff);
            out.push(0xff);
        } else {
            out.push(0x80);
            out.push(0x01);
        }
        proof {
            assert(square_rows().take((row * 2 + 2) as int) =~= square_rows().take((row * 2) as int).push(
                square_rows()[row * 2],
            ).push(square_rows()[row * 2 + 1]));
        }
        row = row + 1;
    }
    out.push(0x0a);
    proof {
        assert(square_rows().take(32) =~= square_rows());
        assert(out@ =~= raster_test_spec());
        lemma_square_encoding();
    }
    out
}

/// Text of the probe page.
pub open spec fn probe_text() -> Seq<char> {
    "THERMAL PROBE\nASCII OK 0123456789\n\n"@
}

/// The probe's test data: `ESC @`, a short ASCII text, the hand-packed
/// square, and a line feed.
pub fn payload() -> (out: Vec<u8>)
    ensures
        out@ == esc_init() + cp860(probe_text()) + raster_test_spec() + seq![0x0au8],
{
    let mut out: Vec<u8> = vec![0x1b, 0x40];
    let mut text = text_bytes("THERMAL PROBE\nASCII OK 0123456789\n\n");
    out.append(&mut text);
    let mut square = raster_test();
    out.append(&mut square);
    out.push(0x0a);
    proof {
        assert(out@ =~= esc_init() + cp860(probe_text()) + raster_test_spec() + seq![0x0au8]);
    }
    out
}

} // verus!
