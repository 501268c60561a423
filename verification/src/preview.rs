//! Document previews for the desktop front end: the cleaned text of a text
//! file, or the first page scaled to the printable width as a base64 PNG.

use vstd::prelude::*;
use crate::backend::DocumentPreviewDto;
use crate::codepage::{clean_text, cleaned};
use crate::raster::{is_normalization, normalize_image, normalized_size, can_normalize, Image, Raster};
use crate::text::owned;

verus! {

/// The bytes that the `image` crate's PNG encoder writes for an 8-bit
/// grayscale image with its default settings: `Fast` compression (fdeflate)
/// and adaptive filtering.
pub uninterp spec fn png_gray8(pixels: Seq<u8>, width: nat, height: nat) -> Seq<u8>;

/// `DynamicImage::ImageLuma8(..).write_to(.., ImageFormat::Png)` into memory.
/// The bytes written are named `png_gray8`. The encoder refuses an image with
/// no columns or no rows and nothing else: a grayscale buffer of the exact
/// length is accepted, and writing into a `Vec` cannot fail. std keeps a
/// `Vec` within `isize::MAX` bytes. The text of the error is left unsaid.
#[verifier::external_body]
fn encode_png(pixels: &Vec<u8>, width: u32, height: u32) -> (r: Result<Vec<u8>, String>)
    requires
        pixels@.len() == width * height,
    ensures
        r matches Ok(b) ==> b@ == png_gray8(pixels@, width as nat, height as nat) && b@.len()
            <= isize::MAX,
        r is Err <==> width == 0 || height == 0,
{
    let img = image::GrayImage::from_raw(width, height, pixels.clone()).unwrap();
    let mut bytes: Vec<u8> = Vec::new();
    let written = image::DynamicImage::ImageLuma8(img).write_to(
        &mut std::io::Cursor::new(&mut bytes),
        image::ImageFormat::Png,
    );
    match written {
        Ok(()) => Ok(bytes),
        Err(e) => Err(e.to_string()),
    }
}

/// The character of a 6-bit value in the standard base64 alphabet
/// (`A-Z`, `a-z`, `0-9`, `+`, `/`).
pub open spec fn b64_digit(v: int) -> char {
    if v < 26 {
        (65 + v) as char
    } else if v < 52 {
        (97 + v - 26) as char
    } else if v < 62 {
        (48 + v - 52) as char
    } else if v == 62 {
        '+'
    } else {
        '/'
    }
}

/// Base64 of RFC 4648 with the standard alphabet: each 3 bytes become 4
/// characters, and a last group of 1 or 2 bytes is padded with `=`.
pub open spec fn base64_std(b: Seq<u8>) -> Seq<char>
    decreases b.len(),
{
    if b.len() == 0 {
        Seq::empty()
    } else if b.len() == 1 {
        let x = b[0] as int;
        seq![b64_digit(x / 4), b64_digit((x % 4) * 16), '=', '=']
    } else if b.len() == 2 {
        let (x, y) = (b[0] as int, b[1] as int);
        seq![b64_digit(x / 4), b64_digit((x % 4) * 16 + y / 16), b64_digit((y % 16) * 4), '=']
    } else {
        let (x, y, z) = (b[0] as int, b[1] as int, b[2] as int);
        seq![
            b64_digit(x / 4),
            b64_digit((x % 4) * 16 + y / 16),
            b64_digit((y % 16) * 4 + z / 64),
            b64_digit(z % 64),
        ] + base64_std(b.skip(3))
    }
}

/// `base64::engine::general_purpose::STANDARD.encode`: the standard alphabet
/// with `=` padding, as the crate documents it. It panics only when the
/// encoded length overflows `usize`, which a buffer within `isize::MAX`
/// bytes never does.
#[verifier::external_body]
fn encode_base64(bytes: &Vec<u8>) -> (s: String)
    requires
        bytes@.len() <= isize::MAX,
    ensures
        s@ == base64_std(bytes@),
{
    base64::Engine::encode(&base64::engine::general_purpose::STANDARD, bytes)
}

/// The preview image of a page already at its printable width: its PNG
/// encoding in base64. A page with no columns or no rows has none; any other
/// page has one.
pub fn preview_png_base64(scaled: &Raster) -> (r: Result<String, String>)
    ensures
        r matches Ok(s) ==> s@ == base64_std(png_gray8(scaled@.pixels, scaled@.width, scaled@.height)),
        r is Err <==> scaled@.width == 0 || scaled@.height == 0,
{
    let (w, h) = scaled.dimensions();
    let png = match encode_png(scaled.as_raw(), w, h) {
        Ok(b) => b,
        Err(e) => return Err(e),
    };
    Ok(encode_base64(&png))
}

/// Printable width of a preview: the requested one, else 384 dots.
pub open spec fn preview_width(width_dots: Option<u32>) -> u32 {
    match width_dots {
        Some(w) => w,
        None => 384,
    }
}

/// Preview of a text document: its text without a leading byte-order mark
/// or carriage returns, on one page.
pub fn text_preview(
    file_name: String,
    file_path: String,
    file_size: u64,
    raw: &str,
    width_dots: Option<u32>,
) -> (d: DocumentPreviewDto)
    ensures
        d.file_name@ == file_name@,
        d.file_path@ == file_path@,
        d.file_size == file_size,
        d.kind@ == "text"@,
        d.text_content matches Some(t) && t@ == cleaned(raw@),
        d.preview_image_base64 is None,
        d.page_count == 1,
        d.width_dots == preview_width(width_dots),
{
    let width: u32 = match width_dots {
        Some(w) => w,
        None => 384,
    };
    DocumentPreviewDto {
        file_name,
        file_path,
        file_size,
        kind: owned("text"),
        text_content: Some(clean_text(raw)),
        preview_image_base64: None,
        page_count: 1,
        width_dots: width,
    }
}

/// Preview of an image document from its first page: the page scaled to the
/// printable width, as a base64 PNG. A scaled page with no columns or no
/// rows cannot be encoded; any other page gives a preview.
pub fn raster_preview(
    file_name: String,
    file_path: String,
    file_size: u64,
    first_page: &Raster,
    page_count: usize,
    width_dots: Option<u32>,
) -> (r: Result<DocumentPreviewDto, String>)
    requires
        can_normalize(first_page@, preview_width(width_dots) as nat),
    ensures
        r is Err <==> normalized_size(first_page@, preview_width(width_dots) as nat).0 == 0
            || normalized_size(first_page@, preview_width(width_dots) as nat).1 == 0,
        r matches Ok(d) ==> {
            &&& d.file_name@ == file_name@
            &&& d.file_path@ == file_path@
            &&& d.file_size == file_size
            &&& d.kind@ == "raster"@
            &&& d.text_content is None
            &&& d.page_count == page_count
            &&& d.width_dots == preview_width(width_dots)
            &&& exists|n: Image|
                is_normalization(first_page@, preview_width(width_dots) as nat, n)
                    && (d.preview_image_base64 matches Some(s) && s@ == base64_std(
                    png_gray8(n.pixels, n.width, n.height),
                ))
        },
{
    let width: u32 = match width_dots {
        Some(w) => w,
        None => 384,
    };
    let scaled = normalize_image(first_page, width);
    let image = match preview_png_base64(&scaled) {
        Ok(s) => s,
        Err(e) => return Err(e),
    };
    let d = DocumentPreviewDto {
        file_name,
        file_path,
        file_size,
        kind: owned("raster"),
        text_content: None,
        preview_image_base64: Some(image),
        page_count,
        width_dots: width,
    };
    proof {
        assert(is_normalization(first_page@, width as nat, scaled@));
    }
    Ok(d)
}

} // verus!
