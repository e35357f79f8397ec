//! Decoding PNG images with the `png` crate and reading their pixels as colours.
use vstd::prelude::*;

use crate::configuration::Color;

verus! {

/// How the samples of a PNG pixel are laid out.
#[derive(Clone, Copy, Debug, PartialEq, Eq, Structural)]
pub enum PngColorType {
    Grayscale,
    Rgb,
    Indexed,
    GrayscaleAlpha,
    Rgba,
}

/// The number of samples in a pixel.
pub open spec fn samples(ct: PngColorType) -> nat {
    match ct {
        PngColorType::Grayscale => 1,
        PngColorType::Rgb => 3,
        PngColorType::Indexed => 1,
        PngColorType::GrayscaleAlpha => 2,
        PngColorType::Rgba => 4,
    }
}

/// What a decoded frame says of its pixels.
#[derive(Clone, Copy, Debug, PartialEq, Eq, Structural)]
pub struct PngFrameInfo {
    pub color_type: PngColorType,
    /// Bits per sample.
    pub bit_depth: u8,
    pub width: u32,
    pub height: u32,
    /// Bytes per row.
    pub line_size: usize,
}

/// The first `n` bytes of `data` from `start` put together, the first as the lowest byte.
pub open spec fn raw_bits(data: Seq<u8>, start: int, n: nat) -> u64
    decreases n,
{
    if n == 0 {
        0
    } else {
        raw_bits(data, start, (n - 1) as nat) | ((data[start + n - 1] as u64) << ((8 * (n - 1)) as u64))
    }
}

/// The number of bytes that hold a pixel of `bpp` bits starting `bit` bits into its first
/// byte.
pub open spec fn pixel_bytes(bpp: nat, bit: nat) -> nat {
    (bpp + bit + 7) / 8
}

/// The bits of the pixel that starts `bit` bits into the byte `byte` of `data`: the bytes
/// that hold it put together, shifted right by `bit`; `None` where they run past the end of
/// the data.
pub open spec fn raw_value(data: Seq<u8>, byte: int, bit: nat, bpp: nat) -> Option<u64> {
    if byte + pixel_bytes(bpp, bit) <= data.len() {
        Some(raw_bits(data, byte, pixel_bytes(bpp, bit)) >> (bit as u64))
    } else {
        None
    }
}

/// The mask of the low `d` bits; for samples wider than a byte, the low 32 bits (such samples
/// are truncated to their low byte to draw something at all).
pub open spec fn sample_mask(d: u8) -> u64 {
    if d <= 8 {
        (((1u16 << d) - 1) as u16) as u64
    } else {
        0xFFFF_FFFFu64
    }
}

/// The `k`-th sample of a pixel of samples of `d` bits, truncated to a byte.
pub open spec fn sample(raw: u64, k: nat, d: u8) -> u8 {
    ((raw >> ((k * d) as u64)) & sample_mask(d)) as u8
}

/// The colour packed from its channels.
pub open spec fn rgba_bits(r: u8, g: u8, b: u8, a: u8) -> u32 {
    (a as int * 0x1000000 + r as int * 0x10000 + g as int * 0x100 + b as int) as u32
}

/// The colour of a pixel: grey for one sample, with alpha for two, red, green and blue for
/// three, with alpha for four; opaque where there is no alpha.
pub open spec fn pixel_color(ct: PngColorType, raw: u64, d: u8) -> u32 {
    match ct {
        PngColorType::Grayscale => rgba_bits(sample(raw, 0, d), sample(raw, 0, d), sample(raw, 0, d), 0xFF),
        PngColorType::Rgb => rgba_bits(sample(raw, 0, d), sample(raw, 1, d), sample(raw, 2, d), 0xFF),
        PngColorType::GrayscaleAlpha => rgba_bits(
            sample(raw, 0, d),
            sample(raw, 0, d),
            sample(raw, 0, d),
            sample(raw, 1, d),
        ),
        PngColorType::Rgba => rgba_bits(sample(raw, 0, d), sample(raw, 1, d), sample(raw, 2, d), sample(raw, 3, d)),
        PngColorType::Indexed => 0,
    }
}

/// The bit at which the pixel (`x`, `y`) starts.
pub open spec fn pixel_offset(info: PngFrameInfo, x: int, y: int) -> int {
    y * (info.line_size * 8) + x * (samples(info.color_type) * (info.bit_depth as nat))
}

/// The bits of the pixel (`x`, `y`), if the data holds them.
pub open spec fn pixel_raw(info: PngFrameInfo, data: Seq<u8>, x: int, y: int) -> Option<u64> {
    let off = pixel_offset(info, x, y);
    raw_value(data, off / 8, (off % 8) as nat, samples(info.color_type) * (info.bit_depth as nat))
}

/// The pixels read from a frame, row by row; where the data ran out, the last row ends
/// before the pixel that could not be read, whose position is given.
#[derive(Debug)]
pub struct DecodedPixels {
    pub rows: Vec<Vec<Color>>,
    pub failed_at: Option<(usize, usize)>,
}

fn pixel_bits(data: &[u8], byte_offset: usize, bit_offset: usize, bits_per_pixel: usize) -> (ret: Option<u64>)
    requires
        bit_offset < 8,
        1 <= bits_per_pixel,
        bit_offset + bits_per_pixel <= 64,
    ensures
        ret == raw_value(data@, byte_offset as int, bit_offset as nat, bits_per_pixel as nat),
{
    let mut value: u64 = 0;
    let mut bits_parsed: i32 = 0 - (bit_offset as i32);
    let mut iteration: usize = 0;
    let ghost n = pixel_bytes(bits_per_pixel as nat, bit_offset as nat);
    assert(n <= 8);
    while bits_parsed < (bits_per_pixel as i32)
        invariant
            bit_offset < 8,
            1 <= bits_per_pixel,
            bit_offset + bits_per_pixel <= 64,
            n <= 8,
            n == pixel_bytes(bits_per_pixel as nat, bit_offset as nat),
            iteration <= n,
            bits_parsed == 8 * iteration - bit_offset,
            iteration > 0 ==> byte_offset + iteration <= data@.len(),
            value == raw_bits(data@, byte_offset as int, iteration as nat),
        decreases n - iteration,
    {
        if byte_offset >= data.len() || iteration >= data.len() - byte_offset {
            return None;
        }
        let partial = data[byte_offset + iteration] as u64;
        let shift = (8 * iteration) as u64;
        value = value | (partial << shift);
        bits_parsed = bits_parsed + 8;
        iteration = iteration + 1;
    }
    Some(value >> (bit_offset as u64))
}

} // verus!

verus! {

proof fn lemma_masked_shift(x: u64, m: u64, s: u64)
    requires
        s < 64,
    ensures
        (x & (m << s)) >> s == (x >> s) & m,
{
    assert((x & (m << s)) >> s == (x >> s) & m) by (bit_vector)
        requires
            s < 64,
    ;
}

fn sample_at(raw: u64, k: u64, d: u8, mask: u64) -> (ret: u8)
    requires
        k < 4,
        d <= 16,
        mask == sample_mask(d),
    ensures
        ret == sample(raw, k as nat, d),
{
    assert(k * (d as u64) < 64) by (nonlinear_arith)
        requires
            k < 4,
            d <= 16,
    ;
    let s: u64 = k * (d as u64);
    proof {
        lemma_masked_shift(raw, mask, s);
    }
    ((raw & (mask << s)) >> s) as u8
}

/// The colour of a pixel (see `pixel_color`).
pub fn convert_pixel(color_type: PngColorType, raw: u64, bit_depth: u8) -> (ret: Color)
    requires
        color_type != PngColorType::Indexed,
        bit_depth <= 8 || bit_depth == 16,
    ensures
        ret.0 == pixel_color(color_type, raw, bit_depth),
{
    let mask: u64 = if bit_depth <= 8 {
        assert((1u16 << bit_depth) >= 1) by (bit_vector)
            requires
                bit_depth <= 8,
        ;
        ((1u16 << bit_depth) - 1) as u64
    } else {
        0xFFFF_FFFF
    };
    match color_type {
        PngColorType::Grayscale => {
            let v = sample_at(raw, 0, bit_depth, mask);
            Color::rgba(v, v, v, 0xFF)
        },
        PngColorType::Rgb => {
            let r = sample_at(raw, 0, bit_depth, mask);
            let g = sample_at(raw, 1, bit_depth, mask);
            let b = sample_at(raw, 2, bit_depth, mask);
            Color::rgba(r, g, b, 0xFF)
        },
        PngColorType::GrayscaleAlpha => {
            let v = sample_at(raw, 0, bit_depth, mask);
            let a = sample_at(raw, 1, bit_depth, mask);
            Color::rgba(v, v, v, a)
        },
        PngColorType::Rgba => {
            let r = sample_at(raw, 0, bit_depth, mask);
            let g = sample_at(raw, 1, bit_depth, mask);
            let b = sample_at(raw, 2, bit_depth, mask);
            let a = sample_at(raw, 3, bit_depth, mask);
            Color::rgba(r, g, b, a)
        },
        PngColorType::Indexed => Color(0),
    }
}

/// Whether `c` is the colour of the pixel (`x`, `y`), which the data holds.
pub open spec fn pixel_read(info: PngFrameInfo, data: Seq<u8>, c: Color, x: int, y: int) -> bool {
    match pixel_raw(info, data, x, y) {
        Some(raw) => c.0 == pixel_color(info.color_type, raw, info.bit_depth),
        None => false,
    }
}

/// Whether `row` holds, in order, the colours of the first pixels of row `y`.
pub open spec fn row_read(info: PngFrameInfo, data: Seq<u8>, row: Seq<Color>, y: int) -> bool {
    forall|x: int| 0 <= x < row.len() ==> pixel_read(info, data, #[trigger] row[x], x, y)
}

/// Whether `ret` is what reading the pixels of a frame gives: every row in full, or the rows
/// up to the first pixel the data does not hold, which is named.
pub open spec fn pixels_read(ret: DecodedPixels, info: PngFrameInfo, data: Seq<u8>) -> bool {
    let rows = ret.rows@;
    &&& forall|y: int| 0 <= y < rows.len() ==> row_read(info, data, #[trigger] rows[y]@, y)
    &&& match ret.failed_at {
        None => rows.len() == info.height && forall|y: int|
            0 <= y < rows.len() ==> (#[trigger] rows[y])@.len() == info.width,
        Some((fx, fy)) => {
            &&& fy < info.height
            &&& fx < info.width
            &&& rows.len() == fy + 1
            &&& rows[fy as int]@.len() == fx
            &&& forall|y: int| 0 <= y < fy ==> (#[trigger] rows[y])@.len() == info.width
            &&& pixel_raw(info, data, fx as int, fy as int) is None
        },
    }
}

/// Reads the pixels of a decoded frame as colours, row by row, until the data runs out
/// (see `pixels_read`).
pub fn decode_png_pixels(info: &PngFrameInfo, data: &[u8]) -> (ret: DecodedPixels)
    requires
        info.color_type != PngColorType::Indexed,
        info.bit_depth == 1 || info.bit_depth == 2 || info.bit_depth == 4 || info.bit_depth == 8
            || info.bit_depth == 16,
        (info.line_size as int) * 8 <= usize::MAX,
        (info.height as int) * ((info.line_size as int) * 8) + (info.width as int) * 64
            <= usize::MAX,
    ensures
        pixels_read(ret, *info, data@),
{
    let d = info.bit_depth;
    let bits_per_pixel: usize = match info.color_type {
        PngColorType::Grayscale => d as usize,
        PngColorType::Rgb => 3 * (d as usize),
        PngColorType::Indexed => d as usize,
        PngColorType::GrayscaleAlpha => 2 * (d as usize),
        PngColorType::Rgba => 4 * (d as usize),
    };
    assert(bits_per_pixel == samples(info.color_type) * (d as nat));
    let width = info.width as usize;
    let height = info.height as usize;
    let stride_bits = info.line_size * 8;
    let mut rows: Vec<Vec<Color>> = Vec::new();
    for y in 0..height
        invariant
            bits_per_pixel == samples(info.color_type) * (d as nat),
            1 <= bits_per_pixel <= 64,
            d == info.bit_depth,
            d <= 8 ==> bits_per_pixel <= 32,
            d <= 8 || d == 16,
            d == 16 ==> bits_per_pixel % 8 == 0,
            info.color_type != PngColorType::Indexed,
            width == info.width,
            height == info.height,
            stride_bits == info.line_size * 8,
            (info.height as int) * (stride_bits as int) + (info.width as int) * 64 <= usize::MAX,
            rows@.len() == y,
            forall|q: int| 0 <= q < y ==> row_read(*info, data@, #[trigger] rows@[q]@, q),
            forall|q: int| 0 <= q < y ==> (#[trigger] rows@[q])@.len() == info.width,
    {
        let mut row: Vec<Color> = Vec::new();
        assert((y as int) * (stride_bits as int) <= (info.height as int) * (stride_bits as int)
            - (stride_bits as int)) by (nonlinear_arith)
            requires
                y < info.height,
        ;
        let row_start = y * stride_bits;
        for x in 0..width
            invariant
                bits_per_pixel == samples(info.color_type) * (d as nat),
                1 <= bits_per_pixel <= 64,
                d == info.bit_depth,
                d <= 8 ==> bits_per_pixel <= 32,
                d <= 8 || d == 16,
                d == 16 ==> bits_per_pixel % 8 == 0,
                info.color_type != PngColorType::Indexed,
                width == info.width,
                y < info.height,
                row_start == y * stride_bits,
                stride_bits == info.line_size * 8,
                (row_start as int) + (info.width as int) * 64 <= usize::MAX,
                row@.len() == x,
                row_read(*info, data@, row@, y as int),
                rows@.len() == y,
                forall|q: int| 0 <= q < y ==> row_read(*info, data@, #[trigger] rows@[q]@, q),
                forall|q: int| 0 <= q < y ==> (#[trigger] rows@[q])@.len() == info.width,
        {
            assert((x as int) * (bits_per_pixel as int) <= (info.width as int) * 64) by (nonlinear_arith)
                requires
                    x < info.width,
                    bits_per_pixel <= 64,
            ;
            let offset = row_start + x * bits_per_pixel;
            proof {
                if d == 16 {
                    let q = bits_per_pixel / 8;
                    let r = y * info.line_size;
                    assert((x as int) * (bits_per_pixel as int) == (x * q) * 8) by (nonlinear_arith)
                        requires
                            bits_per_pixel == 8 * q,
                    ;
                    assert((row_start as int) == r * 8) by (nonlinear_arith)
                        requires
                            row_start == y * stride_bits,
                            stride_bits == info.line_size * 8,
                            r == y * info.line_size,
                    ;
                    assert(offset % 8 == 0);
                }
            }
            assert(offset == pixel_offset(*info, x as int, y as int));
            match pixel_bits(data, offset / 8, offset % 8, bits_per_pixel) {
                Some(raw) => {
                    let c = convert_pixel(info.color_type, raw, d);
                    assert(pixel_raw(*info, data@, x as int, y as int) == Some(raw));
                    let ghost before = row@;
                    row.push(c);
                    proof {
                        assert(row@[x as int] == c);
                        assert forall|x2: int| 0 <= x2 < row@.len() implies pixel_read(
                            *info,
                            data@,
                            #[trigger] row@[x2],
                            x2,
                            y as int,
                        ) by {
                            if x2 < before.len() {
                                assert(row@[x2] == before[x2]);
                            }
                        }
                    }
                },
                None => {
                    let ghost r0 = rows@;
                    rows.push(row);
                    let ret = DecodedPixels { rows, failed_at: Some((x, y)) };
                    proof {
                        assert forall|q: int| 0 <= q < ret.rows@.len() implies row_read(
                            *info,
                            data@,
                            #[trigger] ret.rows@[q]@,
                            q,
                        ) by {
                            if q < r0.len() {
                                assert(ret.rows@[q] == r0[q]);
                            }
                        }
                        assert forall|q: int| 0 <= q < y implies (#[trigger] ret.rows@[q])@.len()
                            == info.width by {
                            assert(ret.rows@[q] == r0[q]);
                        }
                    }
                    return ret;
                },
            }
        }
        let ghost r0 = rows@;
        rows.push(row);
        proof {
            assert forall|q: int| 0 <= q < rows@.len() implies row_read(
                *info,
                data@,
                #[trigger] rows@[q]@,
                q,
            ) by {
                if q < r0.len() {
                    assert(rows@[q] == r0[q]);
                }
            }
            assert forall|q: int| 0 <= q < rows@.len() implies (#[trigger] rows@[q])@.len()
                == info.width by {
                if q < r0.len() {
                    assert(rows@[q] == r0[q]);
                }
            }
        }
    }
    DecodedPixels { rows, failed_at: None }
}

} // verus!

verus! {

/// The first frame of a PNG image as the decoder gives it: the code of its colour type, bits
/// per sample, its width and height, bytes per row, and its data.
#[derive(Debug)]
pub struct PngFrame {
    pub color_code: u8,
    pub bit_depth: u8,
    pub width: u32,
    pub height: u32,
    pub line_size: usize,
    pub data: Vec<u8>,
}

/// Why an image was not read.
#[derive(Clone, Copy, Debug, PartialEq, Eq, Structural)]
pub enum PngFailure {
    /// The decoder refused the data.
    Decoding,
    /// The frame does not fit the machine's memory.
    TooLarge,
    /// Indexed colours, a bit depth the format does not have, or a colour type it does not have.
    Unsupported,
}

/// A decoded frame as plain values.
pub type PngFrameModel = (u8, u8, u32, u32, usize, Seq<u8>);

pub open spec fn frame_model(f: PngFrame) -> PngFrameModel {
    (f.color_code, f.bit_depth, f.width, f.height, f.line_size, f.data@)
}

pub open spec fn decoded_model(r: Result<PngFrame, PngFailure>) -> Result<PngFrameModel, PngFailure> {
    match r {
        Ok(f) => Ok(frame_model(f)),
        Err(e) => Err(e),
    }
}

/// What the `png` crate decodes from `bytes` when it may allocate `limit` bytes: the first
/// frame, or why there is none.
pub uninterp spec fn png_first_frame(bytes: Seq<u8>, limit: usize) -> Result<PngFrameModel, PngFailure>;

/// Decodes the first frame of the PNG image `bytes` with `png::Decoder::new_with_limits`,
/// `Decoder::read_info`, `Reader::output_buffer_size` and `Reader::next_frame`. The contract
/// claims only that the outcome is a function of the bytes and the limit, `png_first_frame`;
/// a refused image is `Decoding`, a frame whose size overflows is `TooLarge`.
#[verifier::external_body]
fn png_decode_first_frame(bytes: &[u8], limit: usize) -> (ret: Result<PngFrame, PngFailure>)
    ensures
        decoded_model(ret) == png_first_frame(bytes@, limit),
{
    let decoder = png::Decoder::new_with_limits(std::io::Cursor::new(bytes), png::Limits { bytes: limit });
    let mut reader = decoder.read_info().ok().ok_or(PngFailure::Decoding)?;
    let mut data = vec![0u8; reader.output_buffer_size().ok_or(PngFailure::TooLarge)?];
    let info = reader.next_frame(&mut data).ok().ok_or(PngFailure::Decoding)?;
    let (color_code, bit_depth) = (info.color_type as u8, info.bit_depth as u8);
    Ok(PngFrame { color_code, bit_depth, width: info.width, height: info.height, line_size: info.line_size, data })
}

/// The colour type a PNG file writes as `code`.
pub open spec fn color_type_of_code(code: u8) -> Option<PngColorType> {
    if code == 0 {
        Some(PngColorType::Grayscale)
    } else if code == 2 {
        Some(PngColorType::Rgb)
    } else if code == 3 {
        Some(PngColorType::Indexed)
    } else if code == 4 {
        Some(PngColorType::GrayscaleAlpha)
    } else if code == 6 {
        Some(PngColorType::Rgba)
    } else {
        None
    }
}

/// The colour type a PNG file writes as `code` (see `color_type_of_code`).
pub fn color_type_from_code(code: u8) -> (ret: Option<PngColorType>)
    ensures
        ret == color_type_of_code(code),
{
    if code == 0 {
        Some(PngColorType::Grayscale)
    } else if code == 2 {
        Some(PngColorType::Rgb)
    } else if code == 3 {
        Some(PngColorType::Indexed)
    } else if code == 4 {
        Some(PngColorType::GrayscaleAlpha)
    } else if code == 6 {
        Some(PngColorType::Rgba)
    } else {
        None
    }
}

/// The description of a decoded frame whose pixels this library reads: not indexed, with one,
/// two, four, eight or sixteen bits per sample (sixteen-bit samples are read truncated, see
/// `sample`); `None` for any other.
pub open spec fn readable_info(f: PngFrameModel) -> Option<PngFrameInfo> {
    match color_type_of_code(f.0) {
        Some(ct) => if ct != PngColorType::Indexed && (f.1 == 1 || f.1 == 2 || f.1 == 4 || f.1 == 8
            || f.1 == 16) {
            Some(PngFrameInfo { color_type: ct, bit_depth: f.1, width: f.2, height: f.3, line_size: f.4 })
        } else {
            None
        },
        None => None,
    }
}

/// Whether the bit offsets of every pixel of a frame fit a `usize`.
pub open spec fn offsets_fit(info: PngFrameInfo) -> bool {
    &&& (info.line_size as int) * 8 <= usize::MAX
    &&& (info.height as int) * ((info.line_size as int) * 8) + (info.width as int) * 64 <= usize::MAX
}

/// A decoded image: the description of its frame, the length of the frame's data, and its
/// pixels.
#[derive(Debug)]
pub struct DecodedImage {
    pub info: PngFrameInfo,
    pub data_len: usize,
    pub pixels: DecodedPixels,
}

/// Whether `ret` is what reading the pixels of the decoded frame `f` gives: the frame's
/// description, data length and pixels (see `pixels_read`) where the frame is readable and
/// its offsets fit, else the reason.
pub open spec fn frame_pixels(f: PngFrameModel, ret: Result<DecodedImage, PngFailure>) -> bool {
    match readable_info(f) {
        None => ret == Err::<DecodedImage, PngFailure>(PngFailure::Unsupported),
        Some(info) => if offsets_fit(info) {
            &&& ret matches Ok(img)
            &&& img.info == info
            &&& img.data_len == f.5.len()
            &&& pixels_read(img.pixels, info, f.5)
        } else {
            ret == Err::<DecodedImage, PngFailure>(PngFailure::TooLarge)
        },
    }
}

/// Reads the pixels of a decoded frame (see `frame_pixels`).
pub fn read_frame_pixels(frame: &PngFrame) -> (ret: Result<DecodedImage, PngFailure>)
    ensures
        frame_pixels(frame_model(*frame), ret),
{
    let color_type = match color_type_from_code(frame.color_code) {
        Some(ct) => ct,
        None => return Err(PngFailure::Unsupported),
    };
    let d = frame.bit_depth;
    if color_type == PngColorType::Indexed || !(d == 1 || d == 2 || d == 4 || d == 8 || d == 16) {
        return Err(PngFailure::Unsupported);
    }
    let info = PngFrameInfo {
        color_type,
        bit_depth: d,
        width: frame.width,
        height: frame.height,
        line_size: frame.line_size,
    };
    assert(readable_info(frame_model(*frame)) == Some(info));
    let stride_bits = match frame.line_size.checked_mul(8) {
        Some(s) => s,
        None => return Err(PngFailure::TooLarge),
    };
    let rows_bits = match (frame.height as usize).checked_mul(stride_bits) {
        Some(r) => r,
        None => return Err(PngFailure::TooLarge),
    };
    let last_row_bits = match (frame.width as usize).checked_mul(64) {
        Some(w) => w,
        None => return Err(PngFailure::TooLarge),
    };
    if rows_bits.checked_add(last_row_bits).is_none() {
        return Err(PngFailure::TooLarge);
    }
    Ok(DecodedImage { info, data_len: frame.data.len(), pixels: decode_png_pixels(&info, &frame.data) })
}

/// Decodes the PNG image `bytes` for drawing at `width` by `height` pixels, letting the
/// decoder allocate ten bytes per pixel of that size, and reads its pixels (see
/// `frame_pixels`).
pub fn decode_png(bytes: &[u8], width: usize, height: usize) -> (ret: Result<DecodedImage, PngFailure>)
    requires
        width * height * 10 <= usize::MAX,
    ensures
        match png_first_frame(bytes@, (width * height * 10) as usize) {
            Err(e) => ret == Err::<DecodedImage, PngFailure>(e),
            Ok(f) => frame_pixels(f, ret),
        },
{
    assert(width * height <= usize::MAX) by (nonlinear_arith)
        requires
            width * height * 10 <= usize::MAX,
    ;
    let limit = width * height * 10;
    match png_decode_first_frame(bytes, limit) {
        Ok(frame) => read_frame_pixels(&frame),
        Err(e) => Err(e),
    }
}

} // verus!
