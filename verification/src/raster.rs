//! Grayscale rasters and their encoding as the ESC/POS `GS v 0` bit-image
//! command.

use vstd::prelude::*;
use vstd::arithmetic::div_mod::lemma_fundamental_div_mod_converse;

verus! {

/// Abstract grayscale image: row-major 8-bit luminance, `0` black, `255` white.
pub struct Image {
    pub width: nat,
    pub height: nat,
    pub pixels: Seq<u8>,
}

impl Image {
    /// Luminance of the pixel in column `x` of row `y`.
    pub open spec fn pixel(self, x: int, y: int) -> u8 {
        self.pixels[y * self.width + x]
    }
}

/// An 8-bit grayscale image held in memory.
pub struct Raster {
    width: u32,
    height: u32,
    pixels: Vec<u8>,
}

impl View for Raster {
    type V = Image;

    closed spec fn view(&self) -> Image {
        Image { width: self.width as nat, height: self.height as nat, pixels: self.pixels@ }
    }
}

/// Why a raster cannot be encoded or produced.
#[derive(Debug, Clone, Copy, PartialEq, Eq)]
pub enum RasterError {
    /// More than 65535 bytes per row or more than 65535 rows.
    TooLarge,
    /// A target width outside `1..=4096` dots.
    WidthOutOfRange,
}

impl RasterError {
    /// Human-readable description.
    pub fn message(&self) -> (s: String)
        ensures
            s@ == match self {
                RasterError::TooLarge => "image is too large for a single ESC/POS raster command"@,
                RasterError::WidthOutOfRange => "profile width must be between 1 and 4096 dots"@,
            },
    {
        match self {
            RasterError::TooLarge => String::from_str(
                "image is too large for a single ESC/POS raster command",
            ),
            RasterError::WidthOutOfRange => String::from_str(
                "profile width must be between 1 and 4096 dots",
            ),
        }
    }
}

impl Raster {
    #[verifier::type_invariant]
    spec fn inv(self) -> bool {
        self.pixels@.len() == self.width * self.height
    }

    /// An image from its dimensions and row-major pixels; `None` when
    /// fewer than `width * height` pixels are given. Extra pixels are dropped.
    pub fn from_raw(width: u32, height: u32, pixels: Vec<u8>) -> (r: Option<Raster>)
        ensures
            r is Some <==> pixels@.len() >= width * height,
            r matches Some(img) ==> img@.width == width && img@.height == height
                && img@.pixels == pixels@.take(width * height),
    {
        assert((width as u64) * (height as u64) <= u64::MAX) by (nonlinear_arith)
            requires
                width <= u32::MAX,
                height <= u32::MAX,
        ;
        let need: u64 = (width as u64) * (height as u64);
        if (pixels.len() as u64) < need {
            return None;
        }
        let mut pixels = pixels;
        let ghost full = pixels@;
        pixels.truncate(need as usize);
        proof {
            assert(pixels@ =~= full.take(width * height));
        }
        Some(Raster { width, height, pixels })
    }

    /// An image of the given size with every pixel set to `luma`.
    pub fn from_pixel(width: u32, height: u32, luma: u8) -> (r: Raster)
        requires
            width * height <= usize::MAX,
        ensures
            r@.width == width,
            r@.height == height,
            r@.pixels == Seq::new((width * height) as nat, |i: int| luma),
    {
        let n: usize = (width as usize) * (height as usize);
        let pixels = vec![luma; n];
        proof {
            assert(pixels@ =~= Seq::new((width * height) as nat, |i: int| luma));
        }
        Raster { width, height, pixels }
    }

    pub fn width(&self) -> (w: u32)
        ensures
            w == self@.width,
    {
        self.width
    }

    pub fn height(&self) -> (h: u32)
        ensures
            h == self@.height,
    {
        self.height
    }

    /// The width and height.
    pub fn dimensions(&self) -> (d: (u32, u32))
        ensures
            d.0 == self@.width,
            d.1 == self@.height,
    {
        (self.width, self.height)
    }

    /// The row-major pixels.
    pub fn as_raw(&self) -> (p: &Vec<u8>)
        ensures
            p@ == self@.pixels,
            p@.len() == self@.width * self@.height,
    {
        proof {
            use_type_invariant(self);
        }
        &self.pixels
    }

    /// Luminance of the pixel in column `x` of row `y`.
    pub fn get_pixel(&self, x: u32, y: u32) -> (v: u8)
        requires
            x < self@.width,
            y < self@.height,
        ensures
            v == self@.pixel(x as int, y as int),
    {
        proof {
            use_type_invariant(self);
            lemma_index_in_bounds(x as int, y as int, self.width as int, self.height as int);
        }
        let _n = self.pixels.len();
        self.pixels[(y as usize) * (self.width as usize) + (x as usize)]
    }

    /// Sets the pixel in column `x` of row `y`, leaving all others unchanged.
    pub fn put_pixel(&mut self, x: u32, y: u32, luma: u8)
        requires
            x < old(self)@.width,
            y < old(self)@.height,
        ensures
            final(self)@.width == old(self)@.width,
            final(self)@.height == old(self)@.height,
            final(self)@.pixels == old(self)@.pixels.update(
                y * old(self)@.width + x,
                luma,
            ),
    {
        proof {
            use_type_invariant(&*self);
            lemma_index_in_bounds(x as int, y as int, self.width as int, self.height as int);
        }
        let _n = self.pixels.len();
        let i: usize = (y as usize) * (self.width as usize) + (x as usize);
        let mut taken = Raster { width: 0, height: 0, pixels: Vec::new() };
        std::mem::swap(self, &mut taken);
        let Raster { width, height, mut pixels } = taken;
        pixels.set(i, luma);
        *self = Raster { width, height, pixels };
    }
}

/// Row-major index of an in-bounds pixel lies inside the pixel buffer.
pub proof fn lemma_index_in_bounds(x: int, y: int, w: int, h: int)
    requires
        0 <= x < w,
        0 <= y < h,
    ensures
        0 <= y * w + x < w * h,
        y * w <= y * w + x,
{
    assert(0 <= y * w) by (nonlinear_arith)
        requires
            0 <= y,
            0 <= w,
    ;
    assert(y * w + w <= w * h) by (nonlinear_arith)
        requires
            y < h,
            0 <= w,
    ;
}

// ---------------------------------------------------------------------------
// GS v 0
// ---------------------------------------------------------------------------

/// Bytes per raster row: one bit per pixel, rounded up to whole bytes.
pub open spec fn row_bytes(width: nat) -> nat {
    ((width + 7) / 8) as nat
}

/// Pixels darker than 180 are printed black; columns past the width are white.
pub open spec fn is_dark(img: Image, x: int, y: int) -> bool {
    x < img.width && img.pixel(x, y) < 180
}

/// The value of bit position `bit` (0 is the leftmost pixel, the most
/// significant bit) in a raster byte.
pub open spec fn bit_weight(bit: int) -> int {
    if bit == 0 {
        128
    } else if bit == 1 {
        64
    } else if bit == 2 {
        32
    } else if bit == 3 {
        16
    } else if bit == 4 {
        8
    } else if bit == 5 {
        4
    } else if bit == 6 {
        2
    } else {
        1
    }
}

/// Sum of the weights of the dark pixels among the first `n` pixels covered
/// by byte `xb` of row `y`.
pub open spec fn packed_prefix(img: Image, y: int, xb: int, n: int) -> int
    decreases n,
{
    if n <= 0 {
        0
    } else {
        packed_prefix(img, y, xb, n - 1) + if is_dark(img, xb * 8 + n - 1, y) {
            bit_weight(n - 1)
        } else {
            0
        }
    }
}

/// Byte `xb` of row `y`: bit `7 - k` is set exactly when pixel `8 * xb + k` is dark.
pub open spec fn raster_byte(img: Image, y: int, xb: int) -> u8 {
    packed_prefix(img, y, xb, 8) as u8
}

/// The packed image data: `row_bytes(width)` bytes per row, rows top to bottom.
pub open spec fn raster_data(img: Image) -> Seq<u8> {
    let bpr = row_bytes(img.width);
    Seq::new(bpr * img.height, |i: int| raster_byte(img, i / bpr as int, i % bpr as int))
}

/// `GS v 0 m xL xH yL yH`: normal scale, width in bytes, height in dots,
/// each as a little-endian 16-bit number (higher bits dropped).
pub open spec fn gs_v0_header(bpr: nat, height: nat) -> Seq<u8> {
    seq![
        0x1du8,
        0x76u8,
        0x30u8,
        0u8,
        (bpr % 256) as u8,
        (bpr / 256 % 256) as u8,
        (height % 256) as u8,
        (height / 256 % 256) as u8,
    ]
}

/// The complete `GS v 0` command for an image.
pub open spec fn gs_v0_bytes(img: Image) -> Seq<u8> {
    gs_v0_header(row_bytes(img.width), img.height) + raster_data(img)
}

/// A `GS v 0` command can describe at most 65535 bytes per row and 65535 rows.
pub open spec fn fits_gs_v0(img: Image) -> bool {
    row_bytes(img.width) <= 65535 && img.height <= 65535
}

proof fn lemma_packed_bound(img: Image, y: int, xb: int, n: int)
    requires
        0 <= n <= 8,
    ensures
        0 <= packed_prefix(img, y, xb, n) < 256,
{
    reveal_with_fuel(packed_prefix, 9);
}

proof fn lemma_set_bit(b: u8, bit: u8)
    by (bit_vector)
    requires
        bit < 8,
        b & (0xffu8 >> bit) == 0,
    ensures
        (b | (0x80u8 >> bit)) as int == b as int + (0x80u8 >> bit) as int,
        bit + 1 < 8 ==> (b | (0x80u8 >> bit)) & (0xffu8 >> (bit + 1)) == 0,
        bit + 1 < 8 ==> b & (0xffu8 >> (bit + 1)) == 0,
{
}

proof fn lemma_weight(bit: u8)
    requires
        bit < 8,
    ensures
        (0x80u8 >> bit) as int == bit_weight(bit as int),
{
    assert(bit == 0 ==> 0x80u8 >> bit == 128) by (bit_vector);
    assert(bit == 1 ==> 0x80u8 >> bit == 64) by (bit_vector);
    assert(bit == 2 ==> 0x80u8 >> bit == 32) by (bit_vector);
    assert(bit == 3 ==> 0x80u8 >> bit == 16) by (bit_vector);
    assert(bit == 4 ==> 0x80u8 >> bit == 8) by (bit_vector);
    assert(bit == 5 ==> 0x80u8 >> bit == 4) by (bit_vector);
    assert(bit == 6 ==> 0x80u8 >> bit == 2) by (bit_vector);
    assert(bit == 7 ==> 0x80u8 >> bit == 1) by (bit_vector);
}

/// Packs the eight pixels covered by byte `xb` of row `y`.
fn pack_byte(image: &Raster, y: u32, xb: usize) -> (b: u8)
    requires
        y < image@.height,
        xb < row_bytes(image@.width),
    ensures
        b == raster_byte(image@, y as int, xb as int),
{
    let ghost img = image@;
    let width = image.width();
    let mut b: u8 = 0;
    let mut bit: u8 = 0;
    assert(0u8 & (0xffu8 >> 0u8) == 0) by (bit_vector);
    while bit < 8
        invariant
            img == image@,
            width == img.width,
            y < img.height,
            xb < row_bytes(img.width),
            bit <= 8,
            b as int == packed_prefix(img, y as int, xb as int, bit as int),
            bit < 8 ==> b & (0xffu8 >> bit) == 0,
        decreases 8 - bit,
    {
        let x: u64 = (xb as u64) * 8 + (bit as u64);
        if x < width as u64 && image.get_pixel(x as u32, y) < 180 {
            proof {
                lemma_set_bit(b, bit);
                lemma_weight(bit);
            }
            b = b | (0x80u8 >> bit);
        } else {
            proof {
                assert(bit + 1 < 8 ==> b & (0xffu8 >> (bit + 1)) == 0) by (bit_vector)
                    requires
                        bit < 8,
                        b & (0xffu8 >> bit) == 0,
                ;
            }
        }
        bit = bit + 1;
    }
    proof {
        lemma_packed_bound(img, y as int, xb as int, 8);
    }
    b
}

/// Encodes `image` as a `GS v 0` raster command: pixels darker than 180 become
/// black dots. Fails when the image is too large for one command.
pub fn gs_v0(image: &Raster) -> (r: Result<Vec<u8>, RasterError>)
    ensures
        r is Err <==> !fits_gs_v0(image@),
        r matches Err(e) ==> e == RasterError::TooLarge,
        r matches Ok(out) ==> out@ == gs_v0_bytes(image@),
{
    let (width, height) = image.dimensions();
    let bytes_per_row: usize = (width / 8) as usize + if width % 8 != 0 {
        1usize
    } else {
        0usize
    };
    assert(bytes_per_row == row_bytes(width as nat));
    if bytes_per_row > 65535 || height > 65535 {
        return Err(RasterError::TooLarge);
    }
    let mut out: Vec<u8> = vec![
        0x1d,
        0x76,
        0x30,
        0,
        (bytes_per_row % 256) as u8,
        (bytes_per_row / 256) as u8,
        (height % 256) as u8,
        (height / 256) as u8,
    ];
    encode_rows(image, bytes_per_row, &mut out);
    Ok(out)
}

/// Encodes `image` as a `GS v 0` raster command without a size check: the
/// header keeps only the low 16 bits of the row size and of the height.
pub fn raster(image: &Raster) -> (out: Vec<u8>)
    ensures
        out@ == gs_v0_bytes(image@),
{
    let (width, height) = image.dimensions();
    let bpr: u32 = width / 8 + if width % 8 != 0 {
        1u32
    } else {
        0u32
    };
    assert(bpr == row_bytes(width as nat));
    let mut out: Vec<u8> = vec![
        0x1d,
        0x76,
        0x30,
        0,
        (bpr % 256) as u8,
        (bpr / 256 % 256) as u8,
        (height % 256) as u8,
        (height / 256 % 256) as u8,
    ];
    encode_rows(image, bpr as usize, &mut out);
    out
}

/// Appends the packed rows of `image` to `out`.
fn encode_rows(image: &Raster, bytes_per_row: usize, out: &mut Vec<u8>)
    requires
        bytes_per_row == row_bytes(image@.width),
    ensures
        final(out)@ == old(out)@ + raster_data(image@),
{
    let ghost img = image@;
    let ghost start = out@;
    let ghost data = raster_data(img);
    let height = image.height();
    let mut y: u32 = 0;
    while y < height
        invariant
            img == image@,
            data == raster_data(img),
            height == img.height,
            bytes_per_row == row_bytes(img.width),
            y <= height,
            out@ == start + data.take(y * bytes_per_row),
        decreases height - y,
    {
        let mut xb: usize = 0;
        while xb < bytes_per_row
            invariant
                img == image@,
                data == raster_data(img),
                height == img.height,
                bytes_per_row == row_bytes(img.width),
                y < height,
                xb <= bytes_per_row,
                out@ == start + data.take(y * bytes_per_row + xb),
            decreases bytes_per_row - xb,
        {
            let b = pack_byte(image, y, xb);
            proof {
                let i = y * bytes_per_row + xb;
                lemma_fundamental_div_mod_converse(i, bytes_per_row as int, y as int, xb as int);
                assert(i < bytes_per_row * height) by (nonlinear_arith)
                    requires
                        xb < bytes_per_row,
                        y < height,
                        i == y * bytes_per_row + xb,
                ;
                assert(data[i] == b);
                assert(data.take(i + 1) =~= data.take(i).push(b));
            }
            out.push(b);
            xb = xb + 1;
        }
        proof {
            assert(y * bytes_per_row + bytes_per_row == (y + 1) * bytes_per_row) by (nonlinear_arith);
        }
        y = y + 1;
    }
    proof {
        assert(data.take(height * bytes_per_row) =~= data) by {
            assert(data.len() == bytes_per_row * height);
            assert(height * bytes_per_row == bytes_per_row * height) by (nonlinear_arith);
        }
    }
}

/// The pixel for bit position `k` (0 = most significant) of a byte is one of
/// eight flags; the byte is their weighted sum.
proof fn lemma_byte_bits(
    v: u8,
    d0: bool,
    d1: bool,
    d2: bool,
    d3: bool,
    d4: bool,
    d5: bool,
    d6: bool,
    d7: bool,
    k: u8,
)
    by (bit_vector)
    requires
        k < 8,
        v == (if d0 { 128u8 } else { 0u8 }) + (if d1 { 64u8 } else { 0u8 }) + (if d2 { 32u8 } else { 0u8 })
            + (if d3 { 16u8 } else { 0u8 }) + (if d4 { 8u8 } else { 0u8 }) + (if d5 { 4u8 } else { 0u8 })
            + (if d6 { 2u8 } else { 0u8 }) + (if d7 { 1u8 } else { 0u8 }),
    ensures
        ((v >> ((7 - k) as u8)) & 1u8 == 1u8) == (if k == 0 {
            d0
        } else if k == 1 {
            d1
        } else if k == 2 {
            d2
        } else if k == 3 {
            d3
        } else if k == 4 {
            d4
        } else if k == 5 {
            d5
        } else if k == 6 {
            d6
        } else {
            d7
        }),
{
}

/// Bit `7 - k` of `raster_byte(img, y, xb)` is set exactly when pixel
/// `8 * xb + k` of row `y` is dark.
pub proof fn lemma_raster_byte_bit(img: Image, y: int, xb: int, k: u8)
    requires
        k < 8,
    ensures
        ((raster_byte(img, y, xb) >> ((7 - k) as u8)) & 1u8 == 1u8) == is_dark(img, xb * 8 + k, y),
{
    reveal_with_fuel(packed_prefix, 9);
    let d0 = is_dark(img, xb * 8 + 0, y);
    let d1 = is_dark(img, xb * 8 + 1, y);
    let d2 = is_dark(img, xb * 8 + 2, y);
    let d3 = is_dark(img, xb * 8 + 3, y);
    let d4 = is_dark(img, xb * 8 + 4, y);
    let d5 = is_dark(img, xb * 8 + 5, y);
    let d6 = is_dark(img, xb * 8 + 6, y);
    let d7 = is_dark(img, xb * 8 + 7, y);
    let v = raster_byte(img, y, xb);
    lemma_packed_bound(img, y, xb, 8);
    lemma_byte_bits(v, d0, d1, d2, d3, d4, d5, d6, d7, k);
}

/// Law: in the `GS v 0` data of an image, the bit for the pixel in column `x`
/// of row `y` is set exactly when that pixel is darker than 180; the padding
/// bits past the right edge are clear.
pub proof fn lemma_gs_v0_pixel_bit(img: Image, x: int, y: int)
    requires
        0 <= x < row_bytes(img.width) * 8,
        0 <= y < img.height,
    ensures
        ({
            let data = raster_data(img);
            let i = y * row_bytes(img.width) + x / 8;
            &&& 0 <= i < data.len()
            &&& ((data[i] >> (7 - x % 8) as u8) & 1u8 == 1u8) == is_dark(img, x, y)
            &&& x >= img.width ==> (data[i] >> (7 - x % 8) as u8) & 1u8 == 0u8
        }),
{
    let bpr = row_bytes(img.width) as int;
    let xb = x / 8;
    let k = x % 8;
    let i = y * bpr + xb;
    assert(0 <= xb < bpr);
    lemma_fundamental_div_mod_converse(i, bpr, y, xb);
    assert(0 <= i < bpr * img.height) by (nonlinear_arith)
        requires
            0 <= xb < bpr,
            0 <= y < img.height,
            i == y * bpr + xb,
    ;
    assert(x == xb * 8 + k);
    lemma_raster_byte_bit(img, y, xb, k as u8);
    let v = raster_data(img)[i];
    let sh: u8 = (7 - k) as u8;
    assert(((v >> sh) & 1u8 == 1u8) || ((v >> sh) & 1u8 == 0u8)) by (bit_vector);
}

/// Law: `GS v 0` carries the bytes per row and the row count in 16-bit
/// fields, so an image is encodable exactly when it has at most 65535 bytes
/// (of 8 dots each, rounded up) per row and at most 65535 rows.
pub proof fn lemma_gs_v0_fits_fields(img: Image)
    ensures
        fits_gs_v0(img) <==> ((img.width + 7) / 8 <= 65535 && img.height <= 65535),
{
}

/// Law: the header of an encodable image's `GS v 0` command is `1d 76 30 00`
/// followed by two little-endian 16-bit fields that read back as the bytes
/// per row (8 dots each, rounded up) and the number of rows.
pub proof fn lemma_gs_v0_header_fields(img: Image)
    requires
        (img.width + 7) / 8 <= 65535,
        img.height <= 65535,
    ensures
        gs_v0_bytes(img).len() >= 8,
        gs_v0_bytes(img).take(4) == seq![0x1du8, 0x76u8, 0x30u8, 0u8],
        gs_v0_bytes(img)[4] + 256 * gs_v0_bytes(img)[5] == (img.width + 7) / 8,
        gs_v0_bytes(img)[6] + 256 * gs_v0_bytes(img)[7] == img.height,
{
    assert(gs_v0_bytes(img).take(4) =~= seq![0x1du8, 0x76u8, 0x30u8, 0u8]);
    let b = row_bytes(img.width);
    assert(b % 256 + 256 * (b / 256 % 256) == b);
    assert(img.height % 256 + 256 * (img.height / 256 % 256) == img.height);
}

/// Law: a `GS v 0` command is its 8-byte header followed by one byte per
/// 8 columns (rounded up) for every row.
pub proof fn lemma_gs_v0_length(img: Image)
    ensures
        gs_v0_bytes(img).len() == 8 + row_bytes(img.width) * img.height,
        gs_v0_bytes(img).take(4) == seq![0x1du8, 0x76u8, 0x30u8, 0u8],
{
    assert(gs_v0_bytes(img).take(4) =~= seq![0x1du8, 0x76u8, 0x30u8, 0u8]);
}

// ---------------------------------------------------------------------------
// Scaling to the printable width
// ---------------------------------------------------------------------------

impl Clone for Raster {
    fn clone(&self) -> (r: Raster)
        ensures
            r@ == self@,
    {
        proof {
            use_type_invariant(self);
        }
        Raster { width: self.width, height: self.height, pixels: self.pixels.clone() }
    }
}

/// The buffers that a Lanczos3 resize allocates fit in memory: an RGBA `f32`
/// intermediate of `width x new_height` and the `new_width x new_height` result.
pub open spec fn resize_fits(width: nat, new_width: nat, new_height: nat) -> bool {
    16 * width * new_height <= isize::MAX && new_width * new_height <= isize::MAX
}

/// `image::imageops::resize(.., FilterType::Lanczos3)` on a grayscale buffer.
/// The crate's source shows that the result has `new_width * new_height`
/// pixels, that an unchanged size copies the pixels, and that an empty source
/// gives an all-zero image. The other pixel values are left unsaid: the
/// filter weights come from `f32::sin`, whose precision std leaves open, so
/// the same call need not give the same pixels twice.
#[verifier::external_body]
fn resize_lanczos3(pixels: &Vec<u8>, width: u32, height: u32, new_width: u32, new_height: u32) -> (out: Vec<u8>)
    requires
        pixels@.len() == width * height,
        resize_fits(width as nat, new_width as nat, new_height as nat),
    ensures
        out@.len() == new_width * new_height,
        width == new_width && height == new_height ==> out@ == pixels@,
        width == 0 || height == 0 ==> out@ == Seq::new((new_width * new_height) as nat, |i: int| 0u8),
{
    let img = image::GrayImage::from_raw(width, height, pixels.clone()).unwrap();
    image::imageops::resize(&img, new_width, new_height, image::imageops::FilterType::Lanczos3).into_raw()
}

/// Height that keeps the aspect ratio at the new width: `height * width`
/// (saturated at `u32::MAX`) divided by the old width, at least 1.
pub open spec fn scaled_height(old_width: nat, old_height: nat, width: nat) -> nat {
    let product = if old_height * width > u32::MAX { u32::MAX as nat } else { old_height * width };
    let h = product / old_width;
    if h < 1 { 1 } else { h }
}

/// `normalize_image` may run on `img` at `width` without dividing by zero or
/// exhausting the address space.
pub open spec fn can_normalize(img: Image, width: nat) -> bool {
    img.width == width || (img.width > 0 && resize_fits(
        img.width,
        width,
        scaled_height(img.width, img.height, width),
    ))
}

fn fits_resize(width: u32, new_width: u32, new_height: u32) -> (b: bool)
    ensures
        b == resize_fits(width as nat, new_width as nat, new_height as nat),
{
    assert((16 * (width as u128)) * (new_height as u128) <= u128::MAX) by (nonlinear_arith)
        requires
            width <= u32::MAX,
            new_height <= u32::MAX,
    ;
    assert((new_width as u128) * (new_height as u128) <= u128::MAX) by (nonlinear_arith)
        requires
            new_width <= u32::MAX,
            new_height <= u32::MAX,
    ;
    (16 * (width as u128)) * (new_height as u128) <= isize::MAX as u128 && (new_width as u128) * (
    new_height as u128) <= isize::MAX as u128
}

fn scaled_height_exec(old_width: u32, old_height: u32, width: u32) -> (h: u32)
    requires
        old_width > 0,
    ensures
        h == scaled_height(old_width as nat, old_height as nat, width as nat),
{
    assert((old_height as u64) * (width as u64) <= u64::MAX) by (nonlinear_arith)
        requires
            old_height <= u32::MAX,
            width <= u32::MAX,
    ;
    let wide: u64 = (old_height as u64) * (width as u64);
    let product: u32 = if wide > u32::MAX as u64 {
        u32::MAX
    } else {
        wide as u32
    };
    let q: u32 = product / old_width;
    if q < 1 {
        1
    } else {
        q
    }
}

/// Whether `normalize_image` can scale `img` to `width` (see `can_normalize`).
pub fn can_scale(img: &Raster, width: u32) -> (b: bool)
    ensures
        b == can_normalize(img@, width as nat),
{
    let (w, h) = img.dimensions();
    if w == width {
        return true;
    }
    if w == 0 {
        return false;
    }
    fits_resize(w, width, scaled_height_exec(w, h, width))
}

/// Whether `shrink_to_width` can scale `img` down to `width`.
pub fn can_shrink(img: &Raster, width: u32) -> (b: bool)
    ensures
        b == (img@.width > width ==> resize_fits(
            img@.width,
            width as nat,
            scaled_height(img@.width, img@.height, width as nat),
        )),
{
    let (w, h) = img.dimensions();
    if w <= width {
        return true;
    }
    fits_resize(w, width, scaled_height_exec(w, h, width))
}

/// Size of the image that `normalize_image` gives: `width` dots and the
/// height that keeps the aspect ratio, or the image's own size when it is
/// already `width` dots wide.
pub open spec fn normalized_size(img: Image, width: nat) -> (nat, nat) {
    if img.width == width {
        (img.width, img.height)
    } else {
        (width, scaled_height(img.width, img.height, width))
    }
}

/// `n` has size `(width, height)` and one pixel for each dot.
pub open spec fn has_size(n: Image, size: (nat, nat)) -> bool {
    n.width == size.0 && n.height == size.1 && n.pixels.len() == size.0 * size.1
}

/// All-zero pixels of an image of the given size.
pub open spec fn blank_pixels(size: (nat, nat)) -> Seq<u8> {
    Seq::new(size.0 * size.1, |i: int| 0u8)
}

/// `n` is what scaling `img` to `width` dots can give: it has the
/// `normalized_size`, an image already that wide is kept as it is, and an
/// image without rows scales to blank pixels. The other pixel values come
/// from the Lanczos3 filter.
pub open spec fn is_normalization(img: Image, width: nat, n: Image) -> bool {
    &&& has_size(n, normalized_size(img, width))
    &&& img.width == width ==> n == img
    &&& img.width != width && img.height == 0 ==> n.pixels == blank_pixels(normalized_size(img, width))
}

/// Law: scaling gives exactly the requested width and at least one row; an
/// image already that wide is kept as it is, and may be scaled again.
pub proof fn lemma_normalized_shape(img: Image, width: nat, n: Image)
    requires
        img.width == width || img.width > 0,
        is_normalization(img, width, n),
    ensures
        n.width == width,
        img.width == width ==> n == img,
        img.width != width ==> n.height >= 1,
        can_normalize(n, width),
{
}

/// Law: an image that `normalize_image` accepts, once scaled to `width`, may
/// be scaled to `width` again, and every result of that is the first one.
pub proof fn lemma_normalize_idempotent(img: Image, width: nat, n: Image)
    requires
        can_normalize(img, width),
        is_normalization(img, width, n),
    ensures
        n.width == width,
        can_normalize(n, width),
        forall|m: Image| #[trigger] is_normalization(n, width, m) ==> m == n,
{
}

/// Scales `img` to `width` dots wide with a Lanczos3 filter, keeping the
/// aspect ratio; an image already that wide is copied unchanged.
pub fn normalize_image(img: &Raster, width: u32) -> (r: Raster)
    requires
        can_normalize(img@, width as nat),
    ensures
        is_normalization(img@, width as nat, r@),
{
    proof {
        use_type_invariant(img);
    }
    if img.width == width {
        let r = img.clone();
        proof {
            use_type_invariant(&r);
        }
        return r;
    }
    let height = scaled_height_exec(img.width, img.height, width);
    let pixels = resize_lanczos3(&img.pixels, img.width, img.height, width, height);
    Raster { width, height, pixels }
}

/// Size of the image that `shrink_to_width` gives: `width` dots and the
/// height that keeps the aspect ratio when the image is wider, else the
/// image's own size.
pub open spec fn shrunk_size(img: Image, width: nat) -> (nat, nat) {
    if img.width > width {
        (width, scaled_height(img.width, img.height, width))
    } else {
        (img.width, img.height)
    }
}

/// `n` is what scaling `img` down to `width` dots can give: it has the
/// `shrunk_size`, an image no wider is kept as it is, and an image without
/// rows scales to blank pixels.
pub open spec fn is_shrink(img: Image, width: nat, n: Image) -> bool {
    &&& has_size(n, shrunk_size(img, width))
    &&& img.width <= width ==> n == img
    &&& img.width > width && img.height == 0 ==> n.pixels == blank_pixels(shrunk_size(img, width))
}

/// Scales `img` down to `width` dots with a Lanczos3 filter, keeping the
/// aspect ratio; narrower images are returned unchanged.
pub fn shrink_to_width(img: Raster, width: u32) -> (r: Raster)
    requires
        img@.width > width ==> resize_fits(
            img@.width,
            width as nat,
            scaled_height(img@.width, img@.height, width as nat),
        ),
    ensures
        is_shrink(img@, width as nat, r@),
{
    proof {
        use_type_invariant(&img);
    }
    if img.width <= width {
        return img;
    }
    let height = scaled_height_exec(img.width, img.height, width);
    let pixels = resize_lanczos3(&img.pixels, img.width, img.height, width, height);
    Raster { width, height, pixels }
}

/// `ESC @` (initialise printer).
pub open spec fn esc_init() -> Seq<u8> {
    seq![0x1bu8, 0x40u8]
}

/// Two line feeds.
pub open spec fn two_feeds() -> Seq<u8> {
    seq![0x0au8, 0x0au8]
}

/// A printable width between 1 and 4096 dots.
pub open spec fn width_in_range(width: nat) -> bool {
    1 <= width <= 4096
}

/// A byte result taken by its view.
pub open spec fn bytes_result(r: Result<Vec<u8>, RasterError>) -> Result<Seq<u8>, RasterError> {
    match r {
        Ok(v) => Ok(v@),
        Err(e) => Err(e),
    }
}

/// The print payload of an image already at its printable width: `ESC @`,
/// the image as a `GS v 0` raster, then two line feeds.
pub open spec fn scaled_payload(img: Image) -> Result<Seq<u8>, RasterError> {
    if !fits_gs_v0(img) {
        Err(RasterError::TooLarge)
    } else {
        Ok(esc_init() + gs_v0_bytes(img) + two_feeds())
    }
}

/// Print payload of an image already at its printable width: `ESC @`, the
/// image as a `GS v 0` raster, then two line feeds.
pub fn scaled_image_payload(scaled: &Raster) -> (r: Result<Vec<u8>, RasterError>)
    ensures
        bytes_result(r) == scaled_payload(scaled@),
{
    let mut raster = match gs_v0(scaled) {
        Ok(bytes) => bytes,
        Err(e) => return Err(e),
    };
    let mut out: Vec<u8> = vec![0x1b, 0x40];
    out.append(&mut raster);
    out.push(0x0a);
    out.push(0x0a);
    proof {
        assert(out@ =~= esc_init() + gs_v0_bytes(scaled@) + two_feeds());
    }
    Ok(out)
}

/// Print payload for a grayscale image: `ESC @`, the image scaled to `width`
/// dots as a `GS v 0` raster, then two line feeds. `width` must lie in
/// `1..=4096`.
pub fn image_payload(gray: &Raster, width: u32) -> (r: Result<Vec<u8>, RasterError>)
    requires
        width_in_range(width as nat) ==> can_normalize(gray@, width as nat),
    ensures
        !width_in_range(width as nat) ==> r == Err::<Vec<u8>, RasterError>(RasterError::WidthOutOfRange),
        width_in_range(width as nat) ==> exists|n: Image|
            is_normalization(gray@, width as nat, n) && bytes_result(r) == scaled_payload(n),
{
    if width == 0 || width > 4096 {
        return Err(RasterError::WidthOutOfRange);
    }
    let target = normalize_image(gray, width);
    let r = scaled_image_payload(&target);
    proof {
        assert(is_normalization(gray@, width as nat, target@) && bytes_result(r) == scaled_payload(target@));
    }
    r
}

} // verus!
