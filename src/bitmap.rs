//! Encoding of a pixel buffer as an uncompressed 24-bit bitmap file.
use vstd::prelude::*;
use crate::pixels::Color;

verus! {

/// Bytes in the file header.
pub const FILE_HEADER_SIZE: u32 = 14;

/// Bytes in the info header.
pub const INFO_HEADER_SIZE: u32 = 40;

/// Bytes that each pixel takes: blue, green, red.
pub const BYTES_PER_PIXEL: u32 = 3;

/// Why a pixel buffer cannot be encoded.
#[derive(Clone, Copy, Debug, PartialEq, Eq, Structural)]
pub enum BitmapError {
    /// The width or the height is zero.
    ZeroDimension,
    /// The buffer does not hold exactly `width * height` pixels.
    PixelCountMismatch,
    /// The file size does not fit in the header's 32-bit field.
    TooLarge,
}

/// Zero bytes that end each row so that its length is a multiple of 4.
pub open spec fn row_padding(width: int) -> int {
    (4 - (width * 3) % 4) % 4
}

/// Bytes in one stored row, padding included.
pub open spec fn row_size(width: int) -> int {
    3 * width + row_padding(width)
}

/// Bytes in the whole file.
pub open spec fn file_size(width: int, height: int) -> int {
    54 + height * row_size(width)
}

/// `x` as four little-endian bytes.
pub open spec fn le32(x: int) -> Seq<u8> {
    seq![
        (x % 256) as u8,
        ((x / 0x100) % 256) as u8,
        ((x / 0x10000) % 256) as u8,
        ((x / 0x1000000) % 256) as u8,
    ]
}

/// `k` zero bytes.
pub open spec fn zeros(k: nat) -> Seq<u8> {
    Seq::new(k, |i: int| 0u8)
}

/// The file header: signature "BM", file size, four reserved bytes, pixel data offset 54.
pub open spec fn file_header_bytes(width: int, height: int) -> Seq<u8> {
    seq![66u8, 77u8] + le32(file_size(width, height)) + zeros(4) + le32(54)
}

/// The info header: its own size 40, width, height, one color plane, 24 bits per
/// pixel, and zeros for compression, image size, resolution and palette.
pub open spec fn info_header_bytes(width: int, height: int) -> Seq<u8> {
    le32(40) + le32(width) + le32(height) + seq![1u8, 0u8, 24u8, 0u8] + zeros(24)
}

/// A pixel's bytes in file order: blue, green, red.
pub open spec fn bgr(c: Color) -> Seq<u8> {
    seq![c.blue, c.green, c.red]
}

/// The bytes of the first `j` pixels of row `row`.
pub open spec fn row_pixel_bytes(pixels: Seq<Color>, width: int, row: int, j: nat) -> Seq<u8>
    decreases j,
{
    if j == 0 {
        Seq::empty()
    } else {
        row_pixel_bytes(pixels, width, row, (j - 1) as nat) + bgr(pixels[row * width + j - 1])
    }
}

/// Row `row` as stored: its pixels left to right, then the padding.
pub open spec fn row_bytes(pixels: Seq<Color>, width: int, row: int) -> Seq<u8> {
    row_pixel_bytes(pixels, width, row, width as nat) + zeros(row_padding(width) as nat)
}

/// The first `k` stored rows, which are the image's last `k` rows from the bottom up.
pub open spec fn rows_bottom_up(pixels: Seq<Color>, width: int, height: int, k: nat) -> Seq<u8>
    decreases k,
{
    if k == 0 {
        Seq::empty()
    } else {
        rows_bottom_up(pixels, width, height, (k - 1) as nat) + row_bytes(pixels, width, height - k)
    }
}

/// The whole file: both headers, then every row from the bottom up.
pub open spec fn bitmap_bytes(pixels: Seq<Color>, width: int, height: int) -> Seq<u8> {
    file_header_bytes(width, height) + info_header_bytes(width, height) + rows_bottom_up(
        pixels,
        width,
        height,
        height as nat,
    )
}

/// The error that encoding reports, checked in this order, if any.
pub open spec fn encode_error(pixels: Seq<Color>, width: int, height: int) -> Option<BitmapError> {
    if width == 0 || height == 0 {
        Some(BitmapError::ZeroDimension)
    } else if pixels.len() != width * height {
        Some(BitmapError::PixelCountMismatch)
    } else if file_size(width, height) > u32::MAX {
        Some(BitmapError::TooLarge)
    } else {
        None
    }
}

/// What encoding returns, with the bytes as a sequence.
pub open spec fn encode_outcome(pixels: Seq<Color>, width: int, height: int) -> Result<
    Seq<u8>,
    BitmapError,
> {
    match encode_error(pixels, width, height) {
        Some(e) => Err(e),
        None => Ok(bitmap_bytes(pixels, width, height)),
    }
}

/// The view of an encoding result.
pub open spec fn result_view(r: Result<Vec<u8>, BitmapError>) -> Result<Seq<u8>, BitmapError> {
    match r {
        Ok(v) => Ok(v@),
        Err(e) => Err(e),
    }
}

/// The padding that ends each row of `width` pixels.
pub fn padding_size(width: u32) -> (r: u32)
    ensures
        r == row_padding(width as int),
        r < 4,
{
    (4 - ((width % 4) * BYTES_PER_PIXEL) % 4) % 4
}

/// Appends `x` as four little-endian bytes.
fn push_le32(out: &mut Vec<u8>, x: u32)
    ensures
        final(out)@ == old(out)@ + le32(x as int),
{
    out.push((x % 256) as u8);
    out.push(((x / 0x100) % 256) as u8);
    out.push(((x / 0x10000) % 256) as u8);
    out.push(((x / 0x1000000) % 256) as u8);
    assert(final(out)@ =~= old(out)@ + le32(x as int));
}

/// Appends `k` zero bytes.
fn push_zeros(out: &mut Vec<u8>, k: u32)
    ensures
        final(out)@ == old(out)@ + zeros(k as nat),
{
    let mut i: u32 = 0;
    while i < k
        invariant
            i <= k,
            out@ == old(out)@ + zeros(i as nat),
        decreases k - i,
    {
        out.push(0);
        i = i + 1;
        assert(out@ =~= old(out)@ + zeros(i as nat));
    }
}

/// The 14-byte file header of a `width` by `height` image.
pub fn create_bitmap_file_header(height: u32, width: u32, padding_size: u32) -> (r: Vec<u8>)
    requires
        padding_size == row_padding(width as int),
        file_size(width as int, height as int) <= u32::MAX,
    ensures
        r@ == file_header_bytes(width as int, height as int),
{
    let row: u64 = (BYTES_PER_PIXEL as u64) * (width as u64) + (padding_size as u64);
    assert(row * (height as u64) == (height as int) * row_size(width as int)) by (nonlinear_arith)
        requires
            row == 3 * width + padding_size,
            padding_size == row_padding(width as int),
    ;
    let size: u64 = (FILE_HEADER_SIZE as u64) + (INFO_HEADER_SIZE as u64) + row * (height as u64);
    let mut header: Vec<u8> = Vec::new();
    header.push(66);
    header.push(77);
    push_le32(&mut header, size as u32);
    push_zeros(&mut header, 4);
    push_le32(&mut header, FILE_HEADER_SIZE + INFO_HEADER_SIZE);
    assert(header@ =~= file_header_bytes(width as int, height as int));
    header
}

/// The 40-byte info header of a `width` by `height` image.
pub fn create_bitmap_info_header(height: u32, width: u32) -> (r: Vec<u8>)
    ensures
        r@ == info_header_bytes(width as int, height as int),
{
    let mut header: Vec<u8> = Vec::new();
    push_le32(&mut header, INFO_HEADER_SIZE);
    push_le32(&mut header, width);
    push_le32(&mut header, height);
    header.push(1);
    header.push(0);
    header.push(24);
    header.push(0);
    push_zeros(&mut header, 24);
    assert(header@ =~= info_header_bytes(width as int, height as int));
    header
}

/// Encodes a row-major pixel buffer as a bitmap file: file header, info header,
/// then the rows from the bottom up, each pixel as blue, green, red, and each row
/// padded with zeros to a multiple of 4 bytes.
pub fn encode_bitmap(pixels: &Vec<Color>, width: u32, height: u32) -> (r: Result<
    Vec<u8>,
    BitmapError,
>)
    ensures
        result_view(r) == encode_outcome(pixels@, width as int, height as int),
        r is Ok ==> r->Ok_0@.len() == file_size(width as int, height as int),
{
    if width == 0 || height == 0 {
        return Err(BitmapError::ZeroDimension);
    }
    assert((width as u64) * (height as u64) <= u64::MAX) by (nonlinear_arith)
        requires
            width <= u32::MAX,
            height <= u32::MAX,
    ;
    if pixels.len() as u64 != (width as u64) * (height as u64) {
        return Err(BitmapError::PixelCountMismatch);
    }
    let padding = padding_size(width);
    let row: u64 = (BYTES_PER_PIXEL as u64) * (width as u64) + (padding as u64);
    if row > ((u32::MAX - FILE_HEADER_SIZE - INFO_HEADER_SIZE) as u64) / (height as u64) {
        assert(file_size(width as int, height as int) > u32::MAX) by (nonlinear_arith)
            requires
                row > (u32::MAX - 54) / (height as int),
                height > 0,
                row == row_size(width as int),
        ;
        return Err(BitmapError::TooLarge);
    }
    assert(file_size(width as int, height as int) <= u32::MAX) by (nonlinear_arith)
        requires
            row <= (u32::MAX - 54) / (height as int),
            height > 0,
            row == row_size(width as int),
    ;
    let ghost w = width as int;
    let ghost h = height as int;
    let ghost head = file_header_bytes(w, h) + info_header_bytes(w, h);
    let mut out = create_bitmap_file_header(height, width, padding);
    let mut info = create_bitmap_info_header(height, width);
    out.append(&mut info);
    let mut k: u32 = 0;
    while k < height
        invariant
            k <= height,
            w == width,
            h == height,
            pixels@.len() == w * h,
            pixels@.len() <= usize::MAX,
            padding == row_padding(w),
            out@ == head + rows_bottom_up(pixels@, w, h, k as nat),
        decreases height - k,
    {
        let r: u32 = height - 1 - k;
        let ghost before = out@;
        let mut j: u32 = 0;
        while j < width
            invariant
                j <= width,
                r < height,
                w == width,
                h == height,
                pixels@.len() == w * h,
            pixels@.len() <= usize::MAX,
                out@ == before + row_pixel_bytes(pixels@, w, r as int, j as nat),
            decreases width - j,
        {
            assert((r as int) * w + (j as int) < w * h) by (nonlinear_arith)
                requires
                    r < h,
                    j < w,
            ;
            assert(0 <= (r as int) * w) by (nonlinear_arith)
                requires
                    r >= 0,
                    w >= 0,
            ;
            let idx: usize = (r as usize) * (width as usize) + (j as usize);
            let c = pixels[idx];
            out.push(c.blue);
            out.push(c.green);
            out.push(c.red);
            j = j + 1;
            assert(out@ =~= before + row_pixel_bytes(pixels@, w, r as int, j as nat));
        }
        push_zeros(&mut out, padding);
        k = k + 1;
        assert(out@ =~= head + rows_bottom_up(pixels@, w, h, k as nat));
    }
    proof {
        lemma_bitmap_len(pixels@, w, h);
    }
    Ok(out)
}

/// A row's pixel bytes are three per pixel.
proof fn lemma_row_pixel_bytes_len(pixels: Seq<Color>, width: int, row: int, j: nat)
    ensures
        row_pixel_bytes(pixels, width, row, j).len() == 3 * j,
    decreases j,
{
    if j > 0 {
        lemma_row_pixel_bytes_len(pixels, width, row, (j - 1) as nat);
    }
}

/// `k` stored rows take `k` times the row size.
proof fn lemma_rows_len(pixels: Seq<Color>, width: int, height: int, k: nat)
    requires
        width >= 0,
    ensures
        rows_bottom_up(pixels, width, height, k).len() == k * row_size(width),
    decreases k,
{
    if k > 0 {
        lemma_rows_len(pixels, width, height, (k - 1) as nat);
        lemma_row_pixel_bytes_len(pixels, width, height - k, width as nat);
        let pad = row_padding(width);
        assert(0 <= pad);
        assert(zeros(pad as nat).len() == pad);
        assert(row_bytes(pixels, width, height - k).len() == row_size(width));
        assert(k * row_size(width) == (k - 1) * row_size(width) + row_size(width))
            by (nonlinear_arith);
        assert(rows_bottom_up(pixels, width, height, k) == rows_bottom_up(
            pixels,
            width,
            height,
            (k - 1) as nat,
        ) + row_bytes(pixels, width, height - k));
    } else {
        assert(k * row_size(width) == 0) by (nonlinear_arith)
            requires
                k == 0,
        ;
    }
}

/// A bitmap of `width` by `height` pixels is exactly as long as the size that its
/// header records: 54 bytes of headers plus `height` rows of `3 * width` bytes and
/// the padding.
pub proof fn lemma_bitmap_len(pixels: Seq<Color>, width: int, height: int)
    requires
        width >= 0,
        height >= 0,
    ensures
        bitmap_bytes(pixels, width, height).len() == file_size(width, height),
{
    lemma_rows_len(pixels, width, height, height as nat);
}

/// Encoding is deterministic: two encodings of the same pixels, width and height
/// give the same result, byte for byte.
pub proof fn encoding_is_deterministic(
    pixels: Seq<Color>,
    width: u32,
    height: u32,
    first: Result<Seq<u8>, BitmapError>,
    second: Result<Seq<u8>, BitmapError>,
)
    requires
        first == encode_outcome(pixels, width as int, height as int),
        second == encode_outcome(pixels, width as int, height as int),
    ensures
        first == second,
        first is Ok ==> first->Ok_0.len() == file_size(width as int, height as int),
{
    lemma_bitmap_len(pixels, width as int, height as int);
}

} // verus!
